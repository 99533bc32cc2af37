//! Log entries and their wire format. One entry is one line:
//!
//! ```text
//! <id:32-hex> <timestamp:RFC3339> <user> <VERB> <target> <param-list>
//! ```
//!
//! with `VERB` one of CREATE, SET, LOG, and the parameter list a run of
//! `key value` segments joined by `; `. Decoding is the left inverse of
//! encoding: see `lemma_entry_round_trip` and the contract of
//! [`encode_entry`].

use vstd::prelude::*;
use crate::chars::{
    is_ws, lower, lower_chars, tok_of, rest_of, ws_len, upto_semi, trim, str_to_chars,
    chars_to_string, eq_chars_str, subvec, read_token, trim_range, append_str, lemma_ws_len_is,
    lemma_upto_semi, lemma_upto_semi_is, lemma_next_tok, lemma_tok_skip_ws, lemma_trim_stable,
    lemma_trim_prepend_ws, lemma_upto_semi_concat, lemma_ws_len_concat,
};
use crate::date::{Date, token_like, rfc3339_of, rfc3339_parse, spec_parse_date};
use crate::error::{DecodeError, SpecDecodeError};
use crate::item::{
    ItemId, Size, Priority, ItemKind, Status, UserId, spec_parse_item_id, spec_parse_size,
    spec_parse_priority, spec_parse_kind, spec_parse_status, lemma_size_round_trip,
    lemma_priority_round_trip, lemma_kind_round_trip, lemma_status_round_trip,
};
use crate::num::{hex32, push_hex32, lemma_hex32_round_trip};

verus! {

/// One typed field assignment carried inside a Set or Log entry.
#[derive(Debug, Clone, PartialEq, Eq)]
pub enum Parameter {
    Title(String),
    Description(String),
    Size(Size),
    Remaining(Size),
    Spent(Size),
    Priority(Priority),
    Owner(UserId),
    Duedate(Date),
    Kind(ItemKind),
    Message(String),
    Status(Status),
}

/// The mathematical reading of a [`Parameter`].
pub enum SpecParameter {
    Title(Seq<char>),
    Description(Seq<char>),
    Size(Size),
    Remaining(Size),
    Spent(Size),
    Priority(Priority),
    Owner(Seq<char>),
    Duedate(Date),
    Kind(ItemKind),
    Message(Seq<char>),
    Status(Status),
}

impl View for Parameter {
    type V = SpecParameter;

    open spec fn view(&self) -> SpecParameter {
        match self {
            Parameter::Title(t) => SpecParameter::Title(t@),
            Parameter::Description(t) => SpecParameter::Description(t@),
            Parameter::Size(q) => SpecParameter::Size(*q),
            Parameter::Remaining(q) => SpecParameter::Remaining(*q),
            Parameter::Spent(q) => SpecParameter::Spent(*q),
            Parameter::Priority(p) => SpecParameter::Priority(*p),
            Parameter::Owner(u) => SpecParameter::Owner(u@),
            Parameter::Duedate(d) => SpecParameter::Duedate(*d),
            Parameter::Kind(k) => SpecParameter::Kind(*k),
            Parameter::Message(m) => SpecParameter::Message(m@),
            Parameter::Status(st) => SpecParameter::Status(*st),
        }
    }
}

impl DeepView for Parameter {
    type V = SpecParameter;

    open spec fn deep_view(&self) -> SpecParameter {
        self.view()
    }
}

/// The addressee of a Set entry: the project itself or one item.
#[derive(Debug, Clone, Copy, PartialEq, Eq, Structural)]
pub enum SetKind {
    Project,
    Item(ItemId),
}

/// What an entry does: introduce an item, assign fields, or record work.
#[derive(Debug, Clone, PartialEq, Eq)]
pub enum EntryKind {
    Create { id: ItemId },
    Assign { kind: SetKind, params: Vec<Parameter> },
    Log { id: ItemId, params: Vec<Parameter> },
}

/// The mathematical reading of an [`EntryKind`].
pub enum SpecEntryKind {
    Create { id: ItemId },
    Assign { kind: SetKind, params: Seq<SpecParameter> },
    Log { id: ItemId, params: Seq<SpecParameter> },
}

impl View for EntryKind {
    type V = SpecEntryKind;

    open spec fn view(&self) -> SpecEntryKind {
        match self {
            EntryKind::Create { id } => SpecEntryKind::Create { id: *id },
            EntryKind::Assign { kind, params } => SpecEntryKind::Assign {
                kind: *kind,
                params: params.deep_view(),
            },
            EntryKind::Log { id, params } => SpecEntryKind::Log {
                id: *id,
                params: params.deep_view(),
            },
        }
    }
}

/// One immutable record of the append-only history.
#[derive(Debug, Clone, PartialEq, Eq)]
pub struct LogEntry {
    pub id: ItemId,
    pub userid: String,
    pub date: Date,
    pub entry_kind: EntryKind,
}

/// The mathematical reading of a [`LogEntry`].
pub struct SpecLogEntry {
    pub id: ItemId,
    pub userid: Seq<char>,
    pub date: Date,
    pub entry_kind: SpecEntryKind,
}

impl View for LogEntry {
    type V = SpecLogEntry;

    open spec fn view(&self) -> SpecLogEntry {
        SpecLogEntry {
            id: self.id,
            userid: self.userid@,
            date: self.date,
            entry_kind: self.entry_kind@,
        }
    }
}

impl DeepView for LogEntry {
    type V = SpecLogEntry;

    open spec fn deep_view(&self) -> SpecLogEntry {
        self.view()
    }
}

impl LogEntry {
    pub fn id(&self) -> (r: &ItemId)
        ensures
            r == self.id,
    {
        &self.id
    }

    pub fn userid(&self) -> (r: &str)
        ensures
            r@ == self@.userid,
    {
        self.userid.as_str()
    }

    pub fn date(&self) -> (r: &Date)
        ensures
            r == self.date,
    {
        &self.date
    }

    pub fn entry_kind(&self) -> (r: &EntryKind)
        ensures
            r == self.entry_kind,
    {
        &self.entry_kind
    }
}

/// A free text that survives the trip through a log line: it holds no
/// segment separator, and neither starts nor ends with a blank (trimming the
/// segments of a line would otherwise eat parts of it).
pub open spec fn text_wf(t: Seq<char>) -> bool {
    &&& forall|i: int| 0 <= i < t.len() ==> #[trigger] t[i] != ';'
    &&& (t.len() == 0 || (!is_ws(t[0]) && !is_ws(t[t.len() - 1])))
}

impl SpecParameter {
    /// The parameters the wire format carries faithfully: free texts that
    /// trimming leaves alone, and representable timestamps.
    pub open spec fn wf(self) -> bool {
        match self {
            SpecParameter::Title(t) => text_wf(t),
            SpecParameter::Description(t) => text_wf(t),
            SpecParameter::Owner(u) => text_wf(u),
            SpecParameter::Message(m) => text_wf(m),
            SpecParameter::Duedate(d) => d.valid(),
            _ => true,
        }
    }

    /// The timestamps of this parameter are representable.
    pub open spec fn dates_valid(self) -> bool {
        match self {
            SpecParameter::Duedate(d) => d.valid(),
            _ => true,
        }
    }

    /// The timestamp codec round-trips on this parameter's timestamp, if it
    /// carries one. Every call of the codec establishes this of the date it
    /// formats.
    pub open spec fn date_ok(self) -> bool {
        match self {
            SpecParameter::Duedate(d) => rfc3339_parse(rfc3339_of(d.secs, d.nanos)) == Some(
                (d.secs, d.nanos),
            ) && token_like(rfc3339_of(d.secs, d.nanos)),
            _ => true,
        }
    }
}

impl SpecEntryKind {
    pub open spec fn params(self) -> Seq<SpecParameter> {
        match self {
            SpecEntryKind::Create { .. } => Seq::empty(),
            SpecEntryKind::Assign { params, .. } => params,
            SpecEntryKind::Log { params, .. } => params,
        }
    }

    pub open spec fn wf(self) -> bool {
        forall|i: int| 0 <= i < self.params().len() ==> (#[trigger] self.params()[i]).wf()
    }

    pub open spec fn dates_valid(self) -> bool {
        forall|i: int|
            0 <= i < self.params().len() ==> (#[trigger] self.params()[i]).dates_valid()
    }

    pub open spec fn dates_ok(self) -> bool {
        forall|i: int| 0 <= i < self.params().len() ==> (#[trigger] self.params()[i]).date_ok()
    }
}

impl SpecLogEntry {
    /// The entries the wire format carries faithfully: a representable
    /// timestamp, a user identifier that can stand as one field, and
    /// well-formed parameters.
    pub open spec fn wf(self) -> bool {
        &&& self.date.valid()
        &&& token_like(self.userid)
        &&& self.entry_kind.wf()
    }

    /// All timestamps of the entry are representable: what [`encode_entry`]
    /// requires.
    pub open spec fn dates_valid(self) -> bool {
        self.date.valid() && self.entry_kind.dates_valid()
    }

    /// The timestamp codec round-trips on every timestamp of the entry.
    pub open spec fn dates_ok(self) -> bool {
        &&& rfc3339_parse(rfc3339_of(self.date.secs, self.date.nanos)) == Some(
            (self.date.secs, self.date.nanos),
        )
        &&& token_like(rfc3339_of(self.date.secs, self.date.nanos))
        &&& self.entry_kind.dates_ok()
    }
}

/// `key value`, or the key alone when the value's text is empty.
pub open spec fn kv(key: Seq<char>, value: Seq<char>) -> Seq<char> {
    if value.len() == 0 {
        key
    } else {
        key + seq![' '] + value
    }
}

/// The canonical text of one parameter.
pub open spec fn spec_encode_param(p: SpecParameter) -> Seq<char> {
    match p {
        SpecParameter::Title(t) => kv("title"@, t),
        SpecParameter::Description(t) => kv("description"@, t),
        SpecParameter::Size(q) => kv("size"@, q.spec_encode()),
        SpecParameter::Remaining(q) => kv("remaining"@, q.spec_encode()),
        SpecParameter::Spent(q) => kv("spent"@, q.spec_encode()),
        SpecParameter::Priority(p) => kv("priority"@, p.spec_encode()),
        SpecParameter::Owner(u) => kv("owner"@, u),
        SpecParameter::Duedate(d) => kv("duedate"@, rfc3339_of(d.secs, d.nanos)),
        SpecParameter::Kind(k) => kv("kind"@, k.spec_encode()),
        SpecParameter::Message(m) => kv("message"@, m),
        SpecParameter::Status(st) => kv("status"@, st.spec_encode()),
    }
}

/// The canonical text of a parameter list: the members' texts joined with
/// `; `.
pub open spec fn spec_encode_params(ps: Seq<SpecParameter>) -> Seq<char>
    decreases ps.len(),
{
    if ps.len() == 0 {
        Seq::empty()
    } else if ps.len() == 1 {
        spec_encode_param(ps[0])
    } else {
        spec_encode_param(ps[0]) + seq![';', ' '] + spec_encode_params(ps.skip(1))
    }
}

/// The canonical text of a Set entry's target.
pub open spec fn spec_encode_target(k: SetKind) -> Seq<char> {
    match k {
        SetKind::Project => "project"@,
        SetKind::Item(id) => hex32(id.0),
    }
}

/// A space followed by the parameter list, or nothing when the list is
/// empty.
pub open spec fn sep_params(ps: Seq<SpecParameter>) -> Seq<char> {
    if ps.len() == 0 {
        Seq::empty()
    } else {
        seq![' '] + spec_encode_params(ps)
    }
}

/// The canonical text of the verb, target and parameters of an entry.
pub open spec fn spec_encode_kind(k: SpecEntryKind) -> Seq<char> {
    match k {
        SpecEntryKind::Create { id } => "CREATE"@ + seq![' '] + hex32(id.0),
        SpecEntryKind::Assign { kind, params } => "SET"@ + seq![' '] + spec_encode_target(kind)
            + sep_params(params),
        SpecEntryKind::Log { id, params } => "LOG"@ + seq![' '] + hex32(id.0) + sep_params(params),
    }
}

/// The canonical line of one entry.
pub open spec fn spec_encode_entry(e: SpecLogEntry) -> Seq<char> {
    hex32(e.id.0) + seq![' '] + rfc3339_of(e.date.secs, e.date.nanos) + seq![' '] + e.userid
        + seq![' '] + spec_encode_kind(e.entry_kind)
}

/// The reading of one parameter segment (already trimmed): the key is the
/// first token, the value is what follows the blank run after it, read by
/// the key's own codec; free-text values are taken as they stand.
pub open spec fn spec_parse_param(seg: Seq<char>) -> Result<SpecParameter, SpecDecodeError> {
    let key = tok_of(seg);
    let rest = rest_of(seg);
    let value = rest.skip(ws_len(rest));
    if key == "title"@ {
        Ok(SpecParameter::Title(value))
    } else if key == "description"@ {
        Ok(SpecParameter::Description(value))
    } else if key == "size"@ {
        match spec_parse_size(value) {
            Some(q) => Ok(SpecParameter::Size(q)),
            None => Err(SpecDecodeError::MalformedQuantity),
        }
    } else if key == "remaining"@ {
        match spec_parse_size(value) {
            Some(q) => Ok(SpecParameter::Remaining(q)),
            None => Err(SpecDecodeError::MalformedQuantity),
        }
    } else if key == "spent"@ {
        match spec_parse_size(value) {
            Some(q) => Ok(SpecParameter::Spent(q)),
            None => Err(SpecDecodeError::MalformedQuantity),
        }
    } else if key == "priority"@ {
        match spec_parse_priority(value) {
            Some(p) => Ok(SpecParameter::Priority(p)),
            None => Err(SpecDecodeError::MalformedPriority),
        }
    } else if key == "owner"@ {
        Ok(SpecParameter::Owner(value))
    } else if key == "duedate"@ {
        match spec_parse_date(value) {
            Some(d) => Ok(SpecParameter::Duedate(d)),
            None => Err(SpecDecodeError::MalformedTimestamp),
        }
    } else if key == "kind"@ {
        match spec_parse_kind(value) {
            Some(k) => Ok(SpecParameter::Kind(k)),
            None => Err(SpecDecodeError::MalformedKind),
        }
    } else if key == "message"@ {
        Ok(SpecParameter::Message(value))
    } else if key == "status"@ {
        match spec_parse_status(value) {
            Some(st) => Ok(SpecParameter::Status(st)),
            None => Err(SpecDecodeError::MalformedStatus),
        }
    } else {
        Err(SpecDecodeError::UnknownParameterKey(key))
    }
}

/// The reading of a raw parameter-list text: split on `;`, trim each
/// segment, skip the empty ones, and read each remaining segment in order;
/// the first failing segment's error is the list's error.
pub open spec fn spec_parse_params(s: Seq<char>) -> Result<Seq<SpecParameter>, SpecDecodeError>
    decreases s.len(),
{
    let k = upto_semi(s);
    let seg = trim(s.take(k));
    let head: Result<Seq<SpecParameter>, SpecDecodeError> = if seg.len() == 0 {
        Ok(Seq::empty())
    } else {
        match spec_parse_param(seg) {
            Ok(p) => Ok(seq![p]),
            Err(e) => Err(e),
        }
    };
    if k >= s.len() {
        head
    } else {
        proof {
            lemma_upto_semi(s);
        }
        match head {
            Err(e) => Err(e),
            Ok(h) => match spec_parse_params(s.skip(k + 1)) {
                Ok(t) => Ok(h + t),
                Err(e) => Err(e),
            },
        }
    }
}

/// The reading of one full line, with the decode errors in their order of
/// priority: missing fields, then the id, the timestamp, the verb and the
/// target, then the parameter list.
pub open spec fn spec_parse_entry(s: Seq<char>) -> Result<SpecLogEntry, SpecDecodeError> {
    let t1 = tok_of(s);
    let r1 = rest_of(s);
    let t2 = tok_of(r1);
    let r2 = rest_of(r1);
    let t3 = tok_of(r2);
    let r3 = rest_of(r2);
    let t4 = tok_of(r3);
    let r4 = rest_of(r3);
    let t5 = tok_of(r4);
    let r5 = rest_of(r4);
    if t1.len() == 0 || t2.len() == 0 || t3.len() == 0 || t4.len() == 0 || t5.len() == 0 {
        Err(SpecDecodeError::MissingField)
    } else {
        match spec_parse_item_id(t1) {
            None => Err(SpecDecodeError::InvalidId),
            Some(id) => match spec_parse_date(t2) {
                None => Err(SpecDecodeError::InvalidTimestamp),
                Some(date) => {
                    let verb = lower(t4);
                    if verb == "create"@ {
                        match spec_parse_item_id(t5) {
                            None => Err(SpecDecodeError::InvalidId),
                            Some(target) => match spec_parse_params(r5) {
                                Err(e) => Err(e),
                                Ok(_) => Ok(
                                    SpecLogEntry {
                                        id,
                                        userid: t3,
                                        date,
                                        entry_kind: SpecEntryKind::Create { id: target },
                                    },
                                ),
                            },
                        }
                    } else if verb == "set"@ {
                        if t5 == "project"@ {
                            match spec_parse_params(r5) {
                                Err(e) => Err(e),
                                Ok(params) => Ok(
                                    SpecLogEntry {
                                        id,
                                        userid: t3,
                                        date,
                                        entry_kind: SpecEntryKind::Assign {
                                            kind: SetKind::Project,
                                            params,
                                        },
                                    },
                                ),
                            }
                        } else {
                            match spec_parse_item_id(t5) {
                                None => Err(SpecDecodeError::InvalidId),
                                Some(target) => match spec_parse_params(r5) {
                                    Err(e) => Err(e),
                                    Ok(params) => Ok(
                                        SpecLogEntry {
                                            id,
                                            userid: t3,
                                            date,
                                            entry_kind: SpecEntryKind::Assign {
                                                kind: SetKind::Item(target),
                                                params,
                                            },
                                        },
                                    ),
                                },
                            }
                        }
                    } else if verb == "log"@ {
                        match spec_parse_item_id(t5) {
                            None => Err(SpecDecodeError::InvalidId),
                            Some(target) => match spec_parse_params(r5) {
                                Err(e) => Err(e),
                                Ok(params) => Ok(
                                    SpecLogEntry {
                                        id,
                                        userid: t3,
                                        date,
                                        entry_kind: SpecEntryKind::Log { id: target, params },
                                    },
                                ),
                            },
                        }
                    } else {
                        Err(SpecDecodeError::InvalidVerb)
                    }
                },
            },
        }
    }
}

/// The fixed parameter keys: every one is a clean token, and the first
/// characters and lengths telling them apart.
proof fn lemma_keys()
    ensures
        token_like("title"@) && "title"@.len() == 5 && "title"@[0] == 't',
        token_like("description"@) && "description"@.len() == 11 && "description"@[0] == 'd',
        token_like("size"@) && "size"@.len() == 4 && "size"@[0] == 's',
        token_like("remaining"@) && "remaining"@.len() == 9 && "remaining"@[0] == 'r',
        token_like("spent"@) && "spent"@.len() == 5 && "spent"@[0] == 's' && "spent"@[1] == 'p',
        token_like("priority"@) && "priority"@.len() == 8 && "priority"@[0] == 'p',
        token_like("owner"@) && "owner"@.len() == 5 && "owner"@[0] == 'o',
        token_like("duedate"@) && "duedate"@.len() == 7 && "duedate"@[0] == 'd',
        token_like("kind"@) && "kind"@.len() == 4 && "kind"@[0] == 'k',
        token_like("message"@) && "message"@.len() == 7 && "message"@[0] == 'm',
        token_like("status"@) && "status"@.len() == 6 && "status"@[0] == 's',
{
    reveal_strlit("title");
    reveal_strlit("description");
    reveal_strlit("size");
    reveal_strlit("remaining");
    reveal_strlit("spent");
    reveal_strlit("priority");
    reveal_strlit("owner");
    reveal_strlit("duedate");
    reveal_strlit("kind");
    reveal_strlit("message");
    reveal_strlit("status");
}

/// The verbs and the fixed target token: clean tokens, their lowercase
/// forms, and what tells them apart.
proof fn lemma_verbs()
    ensures
        token_like("CREATE"@) && "CREATE"@.len() == 6,
        token_like("SET"@) && "SET"@.len() == 3,
        token_like("LOG"@) && "LOG"@.len() == 3,
        lower("CREATE"@) == "create"@,
        lower("SET"@) == "set"@,
        lower("LOG"@) == "log"@,
        "create"@.len() == 6 && "set"@.len() == 3 && "log"@.len() == 3,
        "set"@[0] == 's' && "log"@[0] == 'l' && "create"@[0] == 'c',
        token_like("project"@) && "project"@.len() == 7,
{
    reveal_strlit("CREATE");
    reveal_strlit("SET");
    reveal_strlit("LOG");
    reveal_strlit("create");
    reveal_strlit("set");
    reveal_strlit("log");
    reveal_strlit("project");
    assert(lower("CREATE"@) =~= "create"@);
    assert(lower("SET"@) =~= "set"@);
    assert(lower("LOG"@) =~= "log"@);
}

/// Reading an empty parameter-list text yields no parameters.
pub proof fn lemma_parse_params_empty()
    ensures
        spec_parse_params(Seq::<char>::empty()) == Ok::<_, SpecDecodeError>(
            Seq::<SpecParameter>::empty(),
        ),
{
    let s = Seq::<char>::empty();
    assert(upto_semi(s) == 0);
    assert(s.take(0) =~= s);
    assert(trim(s) =~= Seq::<char>::empty());
}

/// A `key value` segment tokenizes back into its key and its value.
proof fn lemma_kv_parse(key: Seq<char>, value: Seq<char>)
    requires
        token_like(key),
        forall|i: int| 0 <= i < value.len() ==> #[trigger] value[i] != ';',
        value.len() == 0 || (!is_ws(value[0]) && !is_ws(value[value.len() - 1])),
    ensures
        tok_of(kv(key, value)) == key,
        rest_of(kv(key, value)).skip(ws_len(rest_of(kv(key, value)))) == value,
        kv(key, value).len() > 0,
        forall|i: int| 0 <= i < kv(key, value).len() ==> #[trigger] kv(key, value)[i] != ';',
        !is_ws(kv(key, value)[0]),
        !is_ws(kv(key, value)[kv(key, value).len() - 1]),
{
    let s = kv(key, value);
    if value.len() == 0 {
        assert(s =~= key + Seq::<char>::empty());
        lemma_next_tok(key, Seq::<char>::empty());
        assert(rest_of(s) =~= Seq::<char>::empty());
        assert(ws_len(Seq::<char>::empty()) == 0);
        assert(rest_of(s).skip(0) =~= value);
        assert(s == key);
    } else {
        let b = seq![' '] + value;
        assert(b[0] == ' ');
        assert(s =~= key + b);
        lemma_next_tok(key, b);
        assert(rest_of(s) == b);
        assert(b.skip(1) =~= value);
        lemma_ws_len_concat(seq![' '], value);
        assert(ws_len(b) == 1);
        assert forall|i: int| 0 <= i < s.len() implies #[trigger] s[i] != ';' by {
            if i < key.len() {
                assert(s[i] == key[i]);
            } else if i == key.len() {
                assert(s[i] == ' ');
            } else {
                assert(s[i] == value[i - key.len() - 1]);
            }
        }
        assert(s[0] == key[0]);
        assert(s[s.len() - 1] == value[value.len() - 1]);
    }
}

/// Round trip of one parameter: a well-formed parameter's text reads back as
/// exactly that parameter, and the text can stand as one trimmed segment of
/// a line.
pub proof fn lemma_param_round_trip(p: SpecParameter)
    requires
        p.wf(),
        p.date_ok(),
    ensures
        spec_parse_param(spec_encode_param(p)) == Ok::<_, SpecDecodeError>(p),
        spec_encode_param(p).len() > 0,
        forall|i: int|
            0 <= i < spec_encode_param(p).len() ==> #[trigger] spec_encode_param(p)[i] != ';',
        !is_ws(spec_encode_param(p)[0]),
        !is_ws(spec_encode_param(p)[spec_encode_param(p).len() - 1]),
{
    lemma_keys();
    match p {
        SpecParameter::Title(t) => {
            lemma_kv_parse("title"@, t);
        },
        SpecParameter::Description(t) => {
            lemma_kv_parse("description"@, t);
        },
        SpecParameter::Size(q) => {
            lemma_size_round_trip(q);
            lemma_kv_parse("size"@, q.spec_encode());
        },
        SpecParameter::Remaining(q) => {
            lemma_size_round_trip(q);
            lemma_kv_parse("remaining"@, q.spec_encode());
        },
        SpecParameter::Spent(q) => {
            lemma_size_round_trip(q);
            lemma_kv_parse("spent"@, q.spec_encode());
        },
        SpecParameter::Priority(pr) => {
            lemma_priority_round_trip(pr);
            lemma_kv_parse("priority"@, pr.spec_encode());
        },
        SpecParameter::Owner(u) => {
            lemma_kv_parse("owner"@, u);
        },
        SpecParameter::Duedate(d) => {
            lemma_kv_parse("duedate"@, rfc3339_of(d.secs, d.nanos));
        },
        SpecParameter::Kind(k) => {
            lemma_kind_round_trip(k);
            lemma_kv_parse("kind"@, k.spec_encode());
        },
        SpecParameter::Message(m) => {
            lemma_kv_parse("message"@, m);
        },
        SpecParameter::Status(st) => {
            lemma_status_round_trip(st);
            lemma_kv_parse("status"@, st.spec_encode());
        },
    }
}

/// A leading blank changes nothing about how a parameter-list text reads.
pub proof fn lemma_parse_params_skip_ws(t: Seq<char>)
    ensures
        spec_parse_params(seq![' '] + t) == spec_parse_params(t),
{
    let s = seq![' '] + t;
    assert(s[0] == ' ');
    assert(s.skip(1) =~= t);
    assert(upto_semi(s) == 1 + upto_semi(t));
    lemma_upto_semi(t);
    let k = upto_semi(t);
    assert(s.take(1 + k) =~= seq![' '] + t.take(k));
    lemma_trim_prepend_ws(' ', t.take(k));
    if 1 + k < s.len() {
        assert(s.skip(1 + k + 1) =~= t.skip(k + 1));
    }
}

/// Round trip of a parameter list: the joined text of well-formed
/// parameters reads back as exactly those parameters, in order.
pub proof fn lemma_params_round_trip(ps: Seq<SpecParameter>)
    requires
        forall|i: int| 0 <= i < ps.len() ==> (#[trigger] ps[i]).wf() && ps[i].date_ok(),
    ensures
        spec_parse_params(spec_encode_params(ps)) == Ok::<_, SpecDecodeError>(ps),
    decreases ps.len(),
{
    if ps.len() == 0 {
        lemma_parse_params_empty();
        assert(ps =~= Seq::<SpecParameter>::empty());
    } else {
        lemma_param_round_trip(ps[0]);
        let e0 = spec_encode_param(ps[0]);
        if ps.len() == 1 {
            let s = spec_encode_params(ps);
            assert(s == e0);
            lemma_upto_semi_is(e0, e0.len() as int);
            assert(s.take(e0.len() as int) =~= e0);
            lemma_trim_stable(e0);
            assert(seq![ps[0]] =~= ps);
        } else {
            let rest = spec_encode_params(ps.skip(1));
            let s = spec_encode_params(ps);
            let mid = seq![';', ' '] + rest;
            assert(s =~= e0 + mid);
            assert(mid[0] == ';');
            assert(upto_semi(mid) == 0);
            lemma_upto_semi_concat(e0, mid);
            let k = upto_semi(s);
            assert(k == e0.len());
            assert(k < s.len());
            assert(s.take(k) =~= e0);
            lemma_trim_stable(e0);
            assert(s.skip(k + 1) =~= seq![' '] + rest);
            assert forall|i: int| 0 <= i < ps.skip(1).len() implies (#[trigger] ps.skip(1)[i]).wf()
                && ps.skip(1)[i].date_ok() by {
                assert(ps.skip(1)[i] == ps[i + 1]);
            }
            lemma_params_round_trip(ps.skip(1));
            lemma_parse_params_skip_ws(rest);
            assert(seq![ps[0]] + ps.skip(1) =~= ps);
        }
    }
}

/// Round trip of one full entry: the canonical line of a well-formed entry
/// reads back as exactly that entry. The two timestamp hypotheses bundled in
/// `dates_ok` are established by the timestamp codec at every encode call.
pub proof fn lemma_entry_round_trip(e: SpecLogEntry)
    requires
        e.wf(),
        e.dates_ok(),
    ensures
        spec_parse_entry(spec_encode_entry(e)) == Ok::<_, SpecDecodeError>(e),
{
    lemma_verbs();
    lemma_hex32_round_trip(e.id.0);
    let s = spec_encode_entry(e);
    let hid = hex32(e.id.0);
    let ts = rfc3339_of(e.date.secs, e.date.nanos);
    let user = e.userid;
    let kt = spec_encode_kind(e.entry_kind);
    let q3 = user + (seq![' '] + kt);
    let q2 = ts + (seq![' '] + q3);
    assert(s =~= hid + (seq![' '] + q2));
    assert(kt.len() > 0) by {
        match e.entry_kind {
            SpecEntryKind::Create { id } => {
                assert(kt[0] == "CREATE"@[0]);
            },
            SpecEntryKind::Assign { kind, params } => {
                assert(kt[0] == "SET"@[0]);
            },
            SpecEntryKind::Log { id, params } => {
                assert(kt[0] == "LOG"@[0]);
            },
        }
    }
    // peel the four leading fields off the line
    assert((seq![' '] + q2)[0] == ' ');
    lemma_next_tok(hid, seq![' '] + q2);
    lemma_tok_skip_ws(' ', q2);
    assert((seq![' '] + q3)[0] == ' ');
    lemma_next_tok(ts, seq![' '] + q3);
    lemma_tok_skip_ws(' ', q3);
    assert((seq![' '] + kt)[0] == ' ');
    lemma_next_tok(user, seq![' '] + kt);
    lemma_tok_skip_ws(' ', kt);
    let t1 = tok_of(s);
    let r1 = rest_of(s);
    let t2 = tok_of(r1);
    let r2 = rest_of(r1);
    let t3 = tok_of(r2);
    let r3 = rest_of(r2);
    assert(t1 == hid && t2 == ts && t3 == user);
    assert(tok_of(r3) == tok_of(kt) && rest_of(r3) == rest_of(kt));
    // the verb, the target and the parameters
    match e.entry_kind {
        SpecEntryKind::Create { id } => {
            lemma_hex32_round_trip(id.0);
            let tgt = hex32(id.0);
            assert(kt =~= "CREATE"@ + (seq![' '] + tgt));
            assert((seq![' '] + tgt)[0] == ' ');
            lemma_next_tok("CREATE"@, seq![' '] + tgt);
            lemma_tok_skip_ws(' ', tgt);
            assert(tgt =~= tgt + Seq::<char>::empty());
            lemma_next_tok(tgt, Seq::<char>::empty());
            assert(tok_of(kt) == "CREATE"@);
            assert(tok_of(tgt) == tgt && rest_of(tgt) == Seq::<char>::empty());
            lemma_parse_params_empty();
        },
        SpecEntryKind::Assign { kind, params } => {
            let tgt = spec_encode_target(kind);
            assert(kt =~= "SET"@ + (seq![' '] + (tgt + sep_params(params))));
            assert((seq![' '] + (tgt + sep_params(params)))[0] == ' ');
            lemma_next_tok("SET"@, seq![' '] + (tgt + sep_params(params)));
            lemma_tok_skip_ws(' ', tgt + sep_params(params));
            match kind {
                SetKind::Project => {
                },
                SetKind::Item(tid) => {
                    lemma_hex32_round_trip(tid.0);
                },
            }
            assert(token_like(tgt));
            if params.len() == 0 {
                assert(tgt + sep_params(params) =~= tgt + Seq::<char>::empty());
                lemma_next_tok(tgt, Seq::<char>::empty());
                lemma_parse_params_empty();
                assert(params =~= Seq::<SpecParameter>::empty());
            } else {
                let ptext = spec_encode_params(params);
                assert(sep_params(params) == seq![' '] + ptext);
                assert((seq![' '] + ptext)[0] == ' ');
                lemma_next_tok(tgt, seq![' '] + ptext);
                assert forall|i: int| 0 <= i < params.len() implies (#[trigger] params[i]).wf()
                    && params[i].date_ok() by {
                    assert(e.entry_kind.params()[i] == params[i]);
                }
                lemma_params_round_trip(params);
                lemma_parse_params_skip_ws(ptext);
            }
            match kind {
                SetKind::Project => {
                },
                SetKind::Item(tid) => {
                    // a 32-digit identifier is never the token `project`
                    assert(hex32(tid.0).len() == 32);
                },
            }
        },
        SpecEntryKind::Log { id, params } => {
            lemma_hex32_round_trip(id.0);
            let tgt = hex32(id.0);
            assert(kt =~= "LOG"@ + (seq![' '] + (tgt + sep_params(params))));
            assert((seq![' '] + (tgt + sep_params(params)))[0] == ' ');
            lemma_next_tok("LOG"@, seq![' '] + (tgt + sep_params(params)));
            lemma_tok_skip_ws(' ', tgt + sep_params(params));
            if params.len() == 0 {
                assert(tgt + sep_params(params) =~= tgt + Seq::<char>::empty());
                lemma_next_tok(tgt, Seq::<char>::empty());
                lemma_parse_params_empty();
                assert(params =~= Seq::<SpecParameter>::empty());
            } else {
                let ptext = spec_encode_params(params);
                assert(sep_params(params) == seq![' '] + ptext);
                assert((seq![' '] + ptext)[0] == ' ');
                lemma_next_tok(tgt, seq![' '] + ptext);
                assert forall|i: int| 0 <= i < params.len() implies (#[trigger] params[i]).wf()
                    && params[i].date_ok() by {
                    assert(e.entry_kind.params()[i] == params[i]);
                }
                lemma_params_round_trip(params);
                lemma_parse_params_skip_ws(ptext);
            }
        },
    }
    assert(spec_parse_date(ts) == Some(e.date)) by {
        assert(rfc3339_parse(ts) == Some((e.date.secs, e.date.nanos)));
        assert(Date { secs: e.date.secs, nanos: e.date.nanos } == e.date);
    }
}


/// Reads one trimmed parameter segment.
fn parse_param_chars(seg: &Vec<char>) -> (r: Result<Parameter, DecodeError>)
    ensures
        r matches Ok(p) ==> spec_parse_param(seg@) == Ok::<_, SpecDecodeError>(p@)
            && p@.dates_valid(),
        r matches Err(e) ==> spec_parse_param(seg@) == Err::<SpecParameter, _>(e@),
{
    proof {
        assert(seg@.skip(0) =~= seg@);
    }
    let (key, p1) = read_token(seg, 0);
    let ghost rest = rest_of(seg@);
    let n = seg.len();
    let mut j = p1;
    while j < n && (seg[j] == ' ' || seg[j] == '\t')
        invariant
            p1 <= j <= n,
            n == seg.len(),
            forall|k: int| p1 <= k < j ==> is_ws(#[trigger] seg@[k]),
        decreases n - j,
    {
        j = j + 1;
    }
    proof {
        assert forall|k: int| 0 <= k < j - p1 implies is_ws(#[trigger] rest[k]) by {
            assert(rest[k] == seg@[p1 + k]);
        }
        if j < n {
            assert(rest[j - p1] == seg@[j as int]);
        }
        lemma_ws_len_is(rest, j - p1);
        assert(rest.skip(ws_len(rest)) =~= seg@.subrange(j as int, n as int));
    }
    let value = subvec(seg, j, n);
    if eq_chars_str(&key, "title") {
        Ok(Parameter::Title(chars_to_string(&value)))
    } else if eq_chars_str(&key, "description") {
        Ok(Parameter::Description(chars_to_string(&value)))
    } else if eq_chars_str(&key, "size") {
        match Size::from_chars(&value) {
            Some(q) => Ok(Parameter::Size(q)),
            None => Err(DecodeError::MalformedQuantity),
        }
    } else if eq_chars_str(&key, "remaining") {
        match Size::from_chars(&value) {
            Some(q) => Ok(Parameter::Remaining(q)),
            None => Err(DecodeError::MalformedQuantity),
        }
    } else if eq_chars_str(&key, "spent") {
        match Size::from_chars(&value) {
            Some(q) => Ok(Parameter::Spent(q)),
            None => Err(DecodeError::MalformedQuantity),
        }
    } else if eq_chars_str(&key, "priority") {
        match Priority::from_chars(&value) {
            Some(p) => Ok(Parameter::Priority(p)),
            None => Err(DecodeError::MalformedPriority),
        }
    } else if eq_chars_str(&key, "owner") {
        Ok(Parameter::Owner(UserId(chars_to_string(&value))))
    } else if eq_chars_str(&key, "duedate") {
        match Date::from_str(&value) {
            Some(d) => Ok(Parameter::Duedate(d)),
            None => Err(DecodeError::MalformedTimestamp),
        }
    } else if eq_chars_str(&key, "kind") {
        match ItemKind::from_chars(&value) {
            Some(k) => Ok(Parameter::Kind(k)),
            None => Err(DecodeError::MalformedKind),
        }
    } else if eq_chars_str(&key, "message") {
        Ok(Parameter::Message(chars_to_string(&value)))
    } else if eq_chars_str(&key, "status") {
        match Status::from_chars(&value) {
            Some(st) => Ok(Parameter::Status(st)),
            None => Err(DecodeError::MalformedStatus),
        }
    } else {
        Err(DecodeError::UnknownParameterKey(chars_to_string(&key)))
    }
}

impl Parameter {
    /// Reads one `key value` segment as a parameter.
    pub fn from_str(s: &str) -> (r: Result<Parameter, DecodeError>)
        ensures
            r matches Ok(p) ==> spec_parse_param(s@) == Ok::<_, SpecDecodeError>(p@)
                && p@.dates_valid(),
            r matches Err(e) ==> spec_parse_param(s@) == Err::<SpecParameter, _>(e@),
    {
        let v = str_to_chars(s);
        parse_param_chars(&v)
    }
}

/// Reads the raw parameter-list text that starts at `from`, one
/// `;`-separated segment after the other.
fn parse_params_range(v: &Vec<char>, from: usize) -> (r: Result<Vec<Parameter>, DecodeError>)
    requires
        from <= v.len(),
    ensures
        r matches Ok(ps) ==> spec_parse_params(v@.skip(from as int)) == Ok::<
            _,
            SpecDecodeError,
        >(ps.deep_view()) && (forall|k: int|
            0 <= k < ps.len() ==> (#[trigger] ps.deep_view()[k]).dates_valid()),
        r matches Err(e) ==> spec_parse_params(v@.skip(from as int)) == Err::<
            Seq<SpecParameter>,
            _,
        >(e@),
    decreases v.len() - from,
{
    let ghost s = v@.skip(from as int);
    let n = v.len();
    let mut j = from;
    while j < n && v[j] != ';'
        invariant
            from <= j <= n,
            n == v.len(),
            forall|k: int| from <= k < j ==> #[trigger] v@[k] != ';',
        decreases n - j,
    {
        j = j + 1;
    }
    proof {
        assert forall|k: int| 0 <= k < j - from implies #[trigger] s[k] != ';' by {
            assert(s[k] == v@[from + k]);
        }
        if j < n {
            assert(s[j - from] == v@[j as int]);
        }
        lemma_upto_semi_is(s, j - from);
        assert(s.take(j - from) =~= v@.subrange(from as int, j as int));
    }
    let (a, b) = trim_range(v, from, j);
    let mut out: Vec<Parameter> = Vec::new();
    if a < b {
        let segv = subvec(v, a, b);
        match parse_param_chars(&segv) {
            Ok(p) => {
                out.push(p);
            },
            Err(e) => {
                return Err(e);
            },
        }
    }
    if j == n {
        proof {
            if out.len() == 1 {
                assert(out.deep_view() =~= seq![out@[0]@]);
            } else {
                assert(out.deep_view() =~= Seq::<SpecParameter>::empty());
            }
        }
        return Ok(out);
    }
    proof {
        assert(v@.skip(j + 1) =~= s.skip((j - from) + 1));
    }
    match parse_params_range(v, j + 1) {
        Ok(mut tail) => {
            let ghost out0 = out.deep_view();
            let ghost tail0 = tail.deep_view();
            out.append(&mut tail);
            proof {
                assert(out.deep_view() =~= out0 + tail0);
                if out0.len() == 1 {
                    assert(out0 =~= seq![out0[0]]);
                } else {
                    assert(out0 =~= Seq::<SpecParameter>::empty());
                }
            }
            Ok(out)
        },
        Err(e) => Err(e),
    }
}

/// Reads one log line as an entry.
///
/// The result is exactly what the line grammar says of the text: `Ok` with
/// the decoded entry when the line is well formed, otherwise the first
/// decode error in priority order. Every timestamp of a decoded entry is
/// representable, so the entry can be encoded again.
pub fn decode_entry(line: &str) -> (r: Result<LogEntry, DecodeError>)
    ensures
        r matches Ok(e) ==> spec_parse_entry(line@) == Ok::<_, SpecDecodeError>(e@)
            && e@.dates_valid(),
        r matches Err(err) ==> spec_parse_entry(line@) == Err::<SpecLogEntry, _>(err@),
{
    let v = str_to_chars(line);
    proof {
        assert(v@.skip(0) =~= v@);
    }
    let (t1, p1) = read_token(&v, 0);
    let (t2, p2) = read_token(&v, p1);
    let (t3, p3) = read_token(&v, p2);
    let (t4, p4) = read_token(&v, p3);
    let (t5, p5) = read_token(&v, p4);
    if t1.len() == 0 || t2.len() == 0 || t3.len() == 0 || t4.len() == 0 || t5.len() == 0 {
        return Err(DecodeError::MissingField);
    }
    let id = match ItemId::from_chars(&t1) {
        Some(id) => id,
        None => {
            return Err(DecodeError::InvalidId);
        },
    };
    let date = match Date::from_str(&t2) {
        Some(d) => d,
        None => {
            return Err(DecodeError::InvalidTimestamp);
        },
    };
    let userid = chars_to_string(&t3);
    let verb = lower_chars(&t4);
    if eq_chars_str(&verb, "create") {
        let target = match ItemId::from_chars(&t5) {
            Some(t) => t,
            None => {
                return Err(DecodeError::InvalidId);
            },
        };
        match parse_params_range(&v, p5) {
            Ok(_) => Ok(LogEntry { id, userid, date, entry_kind: EntryKind::Create { id: target } }),
            Err(e) => Err(e),
        }
    } else if eq_chars_str(&verb, "set") {
        if eq_chars_str(&t5, "project") {
            match parse_params_range(&v, p5) {
                Ok(params) => Ok(
                    LogEntry {
                        id,
                        userid,
                        date,
                        entry_kind: EntryKind::Assign { kind: SetKind::Project, params },
                    },
                ),
                Err(e) => Err(e),
            }
        } else {
            let target = match ItemId::from_chars(&t5) {
                Some(t) => t,
                None => {
                    return Err(DecodeError::InvalidId);
                },
            };
            match parse_params_range(&v, p5) {
                Ok(params) => Ok(
                    LogEntry {
                        id,
                        userid,
                        date,
                        entry_kind: EntryKind::Assign { kind: SetKind::Item(target), params },
                    },
                ),
                Err(e) => Err(e),
            }
        }
    } else if eq_chars_str(&verb, "log") {
        let target = match ItemId::from_chars(&t5) {
            Some(t) => t,
            None => {
                return Err(DecodeError::InvalidId);
            },
        };
        match parse_params_range(&v, p5) {
            Ok(params) => Ok(
                LogEntry { id, userid, date, entry_kind: EntryKind::Log { id: target, params } },
            ),
            Err(e) => Err(e),
        }
    } else {
        Err(DecodeError::InvalidVerb)
    }
}


/// Appends `key value` (or the key alone for an empty value) to `out`.
fn push_kv(out: &mut Vec<char>, key: &str, value: &str)
    ensures
        final(out)@ == old(out)@ + kv(key@, value@),
{
    append_str(out, key);
    if !value.is_empty() {
        out.push(' ');
        append_str(out, value);
        assert(out@ =~= old(out)@ + kv(key@, value@));
    }
}

/// Appends the canonical text of one parameter to `out`.
fn encode_param_onto(out: &mut Vec<char>, p: &Parameter)
    requires
        p@.dates_valid(),
    ensures
        final(out)@ == old(out)@ + spec_encode_param(p@),
        p@.date_ok(),
{
    match p {
        Parameter::Title(t) => push_kv(out, "title", t.as_str()),
        Parameter::Description(t) => push_kv(out, "description", t.as_str()),
        Parameter::Size(q) => {
            let qs = q.encode();
            push_kv(out, "size", qs.as_str());
        },
        Parameter::Remaining(q) => {
            let qs = q.encode();
            push_kv(out, "remaining", qs.as_str());
        },
        Parameter::Spent(q) => {
            let qs = q.encode();
            push_kv(out, "spent", qs.as_str());
        },
        Parameter::Priority(pr) => {
            let ps = pr.encode();
            push_kv(out, "priority", ps.as_str());
        },
        Parameter::Owner(u) => push_kv(out, "owner", u.as_str()),
        Parameter::Duedate(d) => {
            let ds = d.encode();
            push_kv(out, "duedate", ds.as_str());
        },
        Parameter::Kind(k) => {
            let ks = k.encode();
            push_kv(out, "kind", ks.as_str());
        },
        Parameter::Message(m) => push_kv(out, "message", m.as_str()),
        Parameter::Status(st) => {
            let ss = st.encode();
            push_kv(out, "status", ss.as_str());
        },
    }
}

/// Appends the joined text of `ps[i..]` to `out`.
fn encode_params_onto(out: &mut Vec<char>, ps: &Vec<Parameter>, i: usize)
    requires
        i <= ps.len(),
        forall|k: int| i <= k < ps.len() ==> (#[trigger] ps.deep_view()[k]).dates_valid(),
    ensures
        final(out)@ == old(out)@ + spec_encode_params(ps.deep_view().skip(i as int)),
        forall|k: int| i <= k < ps.len() ==> (#[trigger] ps.deep_view()[k]).date_ok(),
    decreases ps.len() - i,
{
    let ghost tail = ps.deep_view().skip(i as int);
    if i == ps.len() {
        proof {
            assert(tail =~= Seq::<SpecParameter>::empty());
            assert(out@ =~= old(out)@ + spec_encode_params(tail));
        }
    } else {
        proof {
            assert(tail[0] == ps.deep_view()[i as int]);
        }
        encode_param_onto(out, &ps[i]);
        if i + 1 == ps.len() {
            proof {
                assert(tail.len() == 1);
                assert(out@ =~= old(out)@ + spec_encode_params(tail));
            }
        } else {
            out.push(';');
            out.push(' ');
            encode_params_onto(out, ps, i + 1);
            proof {
                assert(tail.skip(1) =~= ps.deep_view().skip(i + 1));
                assert(out@ =~= old(out)@ + (spec_encode_param(tail[0]) + seq![';', ' ']
                    + spec_encode_params(tail.skip(1))));
                assert(tail.len() >= 2);
            }
        }
    }
}

/// Writes one entry as its canonical log line.
///
/// This is total for every entry whose timestamps are representable. The
/// second clause is the round trip: for a well-formed entry, reading the
/// written line yields the entry back, so `decode_entry(encode_entry(e))`
/// returns `Ok` of exactly `e`.
pub fn encode_entry(e: &LogEntry) -> (r: String)
    requires
        e@.dates_valid(),
    ensures
        r@ == spec_encode_entry(e@),
        e@.wf() ==> spec_parse_entry(r@) == Ok::<_, SpecDecodeError>(e@),
{
    let mut out: Vec<char> = Vec::new();
    push_hex32(&mut out, e.id.0);
    out.push(' ');
    let ts = e.date.encode();
    append_str(&mut out, ts.as_str());
    out.push(' ');
    append_str(&mut out, e.userid.as_str());
    out.push(' ');
    match &e.entry_kind {
        EntryKind::Create { id } => {
            append_str(&mut out, "CREATE");
            out.push(' ');
            push_hex32(&mut out, id.0);
        },
        EntryKind::Assign { kind, params } => {
            append_str(&mut out, "SET");
            out.push(' ');
            match kind {
                SetKind::Project => append_str(&mut out, "project"),
                SetKind::Item(tid) => push_hex32(&mut out, tid.0),
            }
            if params.len() > 0 {
                out.push(' ');
                proof {
                    assert forall|k: int| 0 <= k < params.len() implies (
                    #[trigger] params.deep_view()[k]).dates_valid() by {
                        assert(e@.entry_kind.params()[k] == params.deep_view()[k]);
                    }
                }
                encode_params_onto(&mut out, params, 0);
                proof {
                    assert(params.deep_view().skip(0) =~= params.deep_view());
                }
            }
        },
        EntryKind::Log { id, params } => {
            append_str(&mut out, "LOG");
            out.push(' ');
            push_hex32(&mut out, id.0);
            if params.len() > 0 {
                out.push(' ');
                proof {
                    assert forall|k: int| 0 <= k < params.len() implies (
                    #[trigger] params.deep_view()[k]).dates_valid() by {
                        assert(e@.entry_kind.params()[k] == params.deep_view()[k]);
                    }
                }
                encode_params_onto(&mut out, params, 0);
                proof {
                    assert(params.deep_view().skip(0) =~= params.deep_view());
                }
            }
        },
    }
    proof {
        assert(out@ =~= spec_encode_entry(e@));
        if e@.wf() {
            assert(e@.entry_kind.dates_ok()) by {
                match e@.entry_kind {
                    SpecEntryKind::Create { .. } => {
                        assert(e@.entry_kind.params() =~= Seq::<SpecParameter>::empty());
                    },
                    SpecEntryKind::Assign { kind, params } => {
                        assert forall|k: int| 0 <= k < e@.entry_kind.params().len() implies (
                        #[trigger] e@.entry_kind.params()[k]).date_ok() by {
                            assert(e@.entry_kind.params()[k] == params[k]);
                        }
                    },
                    SpecEntryKind::Log { id, params } => {
                        assert forall|k: int| 0 <= k < e@.entry_kind.params().len() implies (
                        #[trigger] e@.entry_kind.params()[k]).date_ok() by {
                            assert(e@.entry_kind.params()[k] == params[k]);
                        }
                    },
                }
            }
            lemma_entry_round_trip(e@);
        }
    }
    chars_to_string(&out)
}


/// The full log line a command invocation means: the input's identifier,
/// timestamp and user, then the command text as the verb, target and
/// parameter list.
pub open spec fn spec_cmd_line(id: ItemId, date: Date, user: Seq<char>, cmd: Seq<char>) -> Seq<
    char,
> {
    hex32(id.0) + seq![' '] + rfc3339_of(date.secs, date.nanos) + seq![' '] + user + seq![' ']
        + cmd
}

impl LogEntry {
    /// Builds the entry the given command text means under this input's
    /// identifier, timestamp and user: the command text is read exactly as
    /// the verb-and-onwards tail of a log line.
    pub fn from_user_input(i: &crate::context::UserInput, cmd_str: &str) -> (r: Result<
        LogEntry,
        DecodeError,
    >)
        requires
            token_like(i.userid@),
            i.date.valid(),
        ensures
            r matches Ok(e) ==> spec_parse_entry(
                spec_cmd_line(i.id, i.date, i.userid@, cmd_str@),
            ) == Ok::<_, SpecDecodeError>(e@) && e@.dates_valid(),
            r matches Err(err) ==> spec_parse_entry(
                spec_cmd_line(i.id, i.date, i.userid@, cmd_str@),
            ) == Err::<SpecLogEntry, _>(err@),
    {
        let mut out: Vec<char> = Vec::new();
        push_hex32(&mut out, i.id.0);
        out.push(' ');
        let ts = i.date.encode();
        append_str(&mut out, ts.as_str());
        out.push(' ');
        append_str(&mut out, i.userid.as_str());
        out.push(' ');
        append_str(&mut out, cmd_str);
        let line = chars_to_string(&out);
        proof {
            assert(out@ =~= spec_cmd_line(i.id, i.date, i.userid@, cmd_str@));
        }
        decode_entry(line.as_str())
    }
}

} // verus!
