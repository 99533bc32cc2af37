//! The command set: one handler per user-facing verb. Each handler is the
//! pure decision-and-computation part of its command; reading the log file,
//! writing snapshots and printing belong to the shell around the library.

use vstd::prelude::*;
use crate::chars::{
    str_to_chars, chars_to_string, read_token, subvec, append_str, tok_of, rest_of,
};
use crate::context::{Context, UserInput};
use crate::date::{Date, token_like, date_valid, rfc3339_of};
use crate::db::{Project, SpecProject, spec_empty_project, spec_apply, spec_reindex, apply, reindex};
use crate::entry::{
    LogEntry, SpecLogEntry, EntryKind, SpecEntryKind, spec_parse_entry, spec_cmd_line,
};
use crate::error::{ApplyError, DecodeError, SpecDecodeError, ReplayError, SpecReplayError};
use crate::item::{SpecItem, ItemId};
use crate::num::{hex32, parse_i32, parse_i32_chars, push_dec_usize, dec_nat, push_hex32};

verus! {

/// Why a command was rejected. The shell turns these into display text.
#[derive(Debug, Clone, PartialEq, Eq)]
pub enum CommandError {
    /// `init` ran inside a directory that already is a project.
    AlreadyProject,
    /// A command that needs an item position got none.
    NoPosition,
    /// The given item position is not a non-negative decimal number.
    NotANumber,
    /// No item sits at the given position.
    NoItemFound,
    /// The command text did not decode as an entry.
    Decode(DecodeError),
    /// The decoded entry contradicts the current state.
    Apply(ApplyError),
}

/// The mathematical reading of a [`CommandError`].
pub enum SpecCommandError {
    AlreadyProject,
    NoPosition,
    NotANumber,
    NoItemFound,
    Decode(SpecDecodeError),
    Apply(ApplyError),
}

impl View for CommandError {
    type V = SpecCommandError;

    open spec fn view(&self) -> SpecCommandError {
        match self {
            CommandError::AlreadyProject => SpecCommandError::AlreadyProject,
            CommandError::NoPosition => SpecCommandError::NoPosition,
            CommandError::NotANumber => SpecCommandError::NotANumber,
            CommandError::NoItemFound => SpecCommandError::NoItemFound,
            CommandError::Decode(e) => SpecCommandError::Decode(e@),
            CommandError::Apply(e) => SpecCommandError::Apply(*e),
        }
    }
}

/// Reports the tracker's own version.
pub struct Version;

impl Version {
    pub fn name(&self) -> (r: &'static str)
        ensures
            r@ == "version"@,
    {
        "version"
    }

    pub fn procedure(&self, ctx: &Context) -> (r: String)
        ensures
            r@ == ctx.yo_version@,
    {
        let mut s = String::new();
        s.append(ctx.yo_version.as_str());
        s
    }
}

/// Starts a new project in the current directory; the shell creates the
/// marker directory and the empty log once this check passes.
pub struct Init;

impl Init {
    pub fn name(&self) -> (r: &'static str)
        ensures
            r@ == "init"@,
    {
        "init"
    }

    pub fn procedure(&self, ctx: &Context) -> (r: Result<String, CommandError>)
        ensures
            ctx.is_project_path ==> (r matches Err(e) && e@ == SpecCommandError::AlreadyProject),
            !ctx.is_project_path ==> (r matches Ok(msg) && msg@ == "Ok"@),
    {
        if ctx.is_project_path {
            Err(CommandError::AlreadyProject)
        } else {
            Ok("Ok".to_owned())
        }
    }
}

/// Empties the projected state; the shell then persists the empty snapshot.
pub struct ResetDb;

impl ResetDb {
    pub fn name(&self) -> (r: &'static str)
        ensures
            r@ == "resetdb"@,
    {
        "resetdb"
    }

    pub fn procedure(&self, db: &mut Project) -> (r: String)
        ensures
            final(db)@ == spec_empty_project(),
            final(db)@.wf(),
            r@ == "Database reseted"@,
    {
        db.reset();
        "Database reseted".to_owned()
    }
}

/// Rebuilds the whole projected state from the given ordered entries,
/// all-or-nothing: on a failing entry the state is left untouched.
pub struct Reindex;

impl Reindex {
    pub fn name(&self) -> (r: &'static str)
        ensures
            r@ == "reindex"@,
    {
        "reindex"
    }

    pub fn procedure(&self, db: &mut Project, entries: &Vec<LogEntry>) -> (r: Result<
        String,
        ReplayError,
    >)
        ensures
            r matches Ok(msg) ==> spec_reindex(entries.deep_view()) == Ok::<_, SpecReplayError>(
                final(db)@,
            ) && final(db)@.wf() && msg@ == "Reindex done"@,
            r matches Err(e) ==> spec_reindex(entries.deep_view()) == Err::<SpecProject, _>(e@)
                && final(db)@ == old(db)@,
    {
        match reindex(entries) {
            Ok(p) => {
                *db = p;
                Ok("Reindex done".to_owned())
            },
            Err(e) => Err(e),
        }
    }
}

/// One line of the `ls` listing: the position, a blank, and the item's
/// title or `-` when it has none.
pub open spec fn spec_item_line(it: SpecItem, i: int) -> Seq<char> {
    dec_nat(i) + seq![' '] + (match it.title {
        Some(t) => t,
        None => "-"@,
    })
}

/// The `ls` listing of `items[i..]`, one line per item.
pub open spec fn spec_listing_from(items: Seq<SpecItem>, i: int) -> Seq<char>
    decreases items.len() - i,
{
    if i < 0 || i >= items.len() {
        Seq::empty()
    } else if i == items.len() - 1 {
        spec_item_line(items[i], i)
    } else {
        spec_item_line(items[i], i) + seq!['\n'] + spec_listing_from(items, i + 1)
    }
}

/// The whole `ls` output: the items in creation order, or a fixed phrase
/// for an empty project.
pub open spec fn spec_listing(items: Seq<SpecItem>) -> Seq<char> {
    if items.len() == 0 {
        "Project is empty"@
    } else {
        spec_listing_from(items, 0)
    }
}

/// Lists the items with their positions and titles.
pub struct List;

impl List {
    pub fn name(&self) -> (r: &'static str)
        ensures
            r@ == "ls"@,
    {
        "ls"
    }

    pub fn procedure(&self, db: &Project) -> (r: String)
        ensures
            r@ == spec_listing(db@.items),
    {
        let items = db.items();
        let n = items.len();
        if n == 0 {
            return "Project is empty".to_owned();
        }
        let ghost iv = items.deep_view();
        let mut out: Vec<char> = Vec::new();
        let mut i: usize = 0;
        while i < n
            invariant
                i <= n,
                n == items.len(),
                n > 0,
                iv == items.deep_view(),
                iv == db@.items,
                i < n ==> out@ + spec_listing_from(iv, i as int) == spec_listing_from(iv, 0),
                i == n ==> out@ == spec_listing_from(iv, 0),
            decreases n - i,
        {
            proof {
                assert(iv[i as int] == items@[i as int].deep_view());
            }
            let ghost out0 = out@;
            push_dec_usize(&mut out, i);
            out.push(' ');
            match &items[i].title {
                Some(t) => append_str(&mut out, t.as_str()),
                None => append_str(&mut out, "-"),
            }
            if i + 1 < n {
                out.push('\n');
            }
            proof {
                if i + 1 < n {
                    assert(out@ =~= out0 + (spec_item_line(iv[i as int], i as int) + seq!['\n']));
                    assert(out@ + spec_listing_from(iv, i + 1) =~= out0 + spec_listing_from(
                        iv,
                        i as int,
                    ));
                } else {
                    assert(out@ =~= out0 + spec_item_line(iv[i as int], i as int));
                }
            }
            i = i + 1;
        }
        chars_to_string(&out)
    }
}

/// What the `details` command prints for one item: its title, description,
/// owner, due date (as RFC 3339 when representable) and status, each on its
/// own line, with `-` for anything not set.
pub open spec fn spec_item_details(it: SpecItem) -> Seq<char> {
    "title: "@ + (match it.title {
        Some(t) => t,
        None => "-"@,
    }) + "\ndescription: "@ + (match it.description {
        Some(t) => t,
        None => "-"@,
    }) + "\nowner: "@ + (match it.owner {
        Some(u) => u,
        None => "-"@,
    }) + "\nduedate: "@ + (match it.duedate {
        Some(d) => if date_valid(d.secs, d.nanos) {
            rfc3339_of(d.secs, d.nanos)
        } else {
            "-"@
        },
        None => "-"@,
    }) + "\nstatus: "@ + it.status.spec_encode()
}

/// The position word of a command invocation: the first token of its
/// parameter text, if there is one.
pub open spec fn spec_position_arg(u: UserInput) -> Option<Seq<char>> {
    match u.param_str {
        Some(ps) => if tok_of(ps@).len() > 0 {
            Some(tok_of(ps@))
        } else {
            None
        },
        None => None,
    }
}

/// What the `details` command answers, for every input: the rendering of
/// the item at the given creation-order position, or the one error its
/// parameter text earns — no position word, a word that is not a
/// non-negative decimal number, or a position past the last item.
pub open spec fn spec_details_outcome(u: UserInput, items: Seq<SpecItem>) -> Result<
    Seq<char>,
    SpecCommandError,
> {
    match spec_position_arg(u) {
        None => Err(SpecCommandError::NoPosition),
        Some(t) => match parse_i32(t) {
            None => Err(SpecCommandError::NotANumber),
            Some(n) => if n < 0 {
                Err(SpecCommandError::NotANumber)
            } else if n >= items.len() {
                Err(SpecCommandError::NoItemFound)
            } else {
                Ok(spec_item_details(items[n as int]))
            },
        },
    }
}

/// Shows one item, addressed by its creation-order position.
pub struct Details;

impl Details {
    pub fn name(&self) -> (r: &'static str)
        ensures
            r@ == "details"@,
    {
        "details"
    }

    pub fn procedure(&self, db: &Project, cmd: &UserInput) -> (r: Result<String, CommandError>)
        ensures
            r matches Ok(msg) ==> spec_details_outcome(*cmd, db@.items) == Ok::<
                _,
                SpecCommandError,
            >(msg@),
            r matches Err(e) ==> spec_details_outcome(*cmd, db@.items) == Err::<Seq<char>, _>(e@),
    {
        let tok = match cmd.param_id() {
            Some(t) => t,
            None => {
                return Err(CommandError::NoPosition);
            },
        };
        let tv = str_to_chars(tok.as_str());
        let pos_i32 = match parse_i32_chars(&tv) {
            Some(m) => m,
            None => {
                return Err(CommandError::NotANumber);
            },
        };
        if pos_i32 < 0 {
            return Err(CommandError::NotANumber);
        }
        let pos = pos_i32 as usize;
        let items = db.items();
        if pos >= items.len() {
            return Err(CommandError::NoItemFound);
        }
        proof {
            assert(db@.items[pos as int] == items@[pos as int].deep_view());
        }
        let it = &items[pos];
        let mut out: Vec<char> = Vec::new();
        append_str(&mut out, "title: ");
        match &it.title {
            Some(t) => append_str(&mut out, t.as_str()),
            None => append_str(&mut out, "-"),
        }
        append_str(&mut out, "\ndescription: ");
        match &it.description {
            Some(t) => append_str(&mut out, t.as_str()),
            None => append_str(&mut out, "-"),
        }
        append_str(&mut out, "\nowner: ");
        match &it.owner {
            Some(u) => append_str(&mut out, u.as_str()),
            None => append_str(&mut out, "-"),
        }
        append_str(&mut out, "\nduedate: ");
        match &it.duedate {
            Some(d) => {
                if crate::date::date_valid_check(d.secs, d.nanos) {
                    let ds = d.encode();
                    append_str(&mut out, ds.as_str());
                } else {
                    append_str(&mut out, "-");
                }
            },
            None => append_str(&mut out, "-"),
        }
        append_str(&mut out, "\nstatus: ");
        let ss = it.status.encode();
        append_str(&mut out, ss.as_str());
        proof {
            assert(out@ =~= spec_item_details(db@.items[pos as int]));
        }
        Ok(chars_to_string(&out))
    }
}

/// Introduces a new item: one Create entry, stamped with the input's
/// identifier, timestamp and user. The fresh item identifier comes from the
/// shell. On success the message names the new item's position, and the
/// entry is handed back for the shell to append to the log.
pub struct Create;

impl Create {
    pub fn name(&self) -> (r: &'static str)
        ensures
            r@ == "create"@,
    {
        "create"
    }

    pub fn procedure(&self, db: &mut Project, cmd: &UserInput, new_id: ItemId) -> (r: Result<
        (String, LogEntry),
        CommandError,
    >)
        requires
            old(db)@.wf(),
        ensures
            final(db)@.wf(),
            r matches Ok(p) ==> ({
                let e = p.1;
                &&& e@.id == cmd.id
                &&& e@.date == cmd.date
                &&& e@.userid == cmd.userid@
                &&& e@.entry_kind == (SpecEntryKind::Create { id: new_id })
                &&& spec_apply(old(db)@, e@) == Ok::<_, ApplyError>(final(db)@)
                &&& p.0@ == "Created: "@ + dec_nat(final(db)@.items.len() - 1)
            }),
            r matches Err(err) ==> final(db)@ == old(db)@ && (err@ matches SpecCommandError::Apply(
                ae,
            ) && spec_apply(old(db)@, spec_create_entry(cmd.id, cmd.date, cmd.userid@, new_id))
                == Err::<SpecProject, _>(ae)),
    {
        let entry = LogEntry {
            id: cmd.id,
            userid: cmd.userid.clone(),
            date: cmd.date,
            entry_kind: EntryKind::Create { id: new_id },
        };
        match apply(db, &entry) {
            Ok(_) => {
                let mut out: Vec<char> = Vec::new();
                append_str(&mut out, "Created: ");
                let items = db.items();
                let count = items.len();
                proof {
                    assert(count == db@.items.len());
                    assert(db@.items.len() > 0);
                }
                push_dec_usize(&mut out, count - 1);
                proof {
                    assert(out@ =~= "Created: "@ + dec_nat(final(db)@.items.len() - 1));
                }
                Ok((chars_to_string(&out), entry))
            },
            Err(e) => Err(CommandError::Apply(e)),
        }
    }
}

/// The entry a `create` invocation makes.
pub open spec fn spec_create_entry(
    id: ItemId,
    date: Date,
    user: Seq<char>,
    new_id: ItemId,
) -> SpecLogEntry {
    SpecLogEntry { id, userid: user, date, entry_kind: SpecEntryKind::Create { id: new_id } }
}

/// Where a `set` command's second word is a non-negative decimal, it is a
/// creation-order position to be replaced by that item's identifier.
pub open spec fn spec_set_position(raw: Seq<char>) -> Option<int> {
    match parse_i32(tok_of(rest_of(raw))) {
        Some(n) => if n >= 0 {
            Some(n as int)
        } else {
            None
        },
        None => None,
    }
}

/// The `set` command text with its position word replaced by the item's
/// identifier; everything after that word is kept as it stands.
pub open spec fn spec_rebuilt(raw: Seq<char>, id: ItemId) -> Seq<char> {
    tok_of(raw) + seq![' '] + hex32(id.0) + rest_of(rest_of(raw))
}

/// Assigns fields: one Set entry built from the user's command text, with a
/// positional item reference translated to the item's identifier. On
/// success the entry is handed back for the shell to append to the log.
pub struct SetCommand;

impl SetCommand {
    pub fn name(&self) -> (r: &'static str)
        ensures
            r@ == "set"@,
    {
        "set"
    }

    pub fn procedure(&self, db: &mut Project, cmd: &UserInput) -> (r: Result<
        (String, LogEntry),
        CommandError,
    >)
        requires
            old(db)@.wf(),
            token_like(cmd.userid@),
            cmd.date.valid(),
        ensures
            final(db)@.wf(),
            ({
                let raw = cmd.params_raw@;
                let pos = spec_set_position(raw);
                let text = if pos matches Some(n) && 0 <= n < old(db)@.items.len() {
                    spec_rebuilt(raw, old(db)@.items[pos->0].id)
                } else {
                    raw
                };
                let line = spec_cmd_line(cmd.id, cmd.date, cmd.userid@, text);
                &&& ((r matches Err(e) && e@ == SpecCommandError::NoItemFound) <==> (
                pos matches Some(n) && n >= old(db)@.items.len()))
                &&& (r matches Ok(p) ==> p.0@ == "Ok"@ && spec_parse_entry(line) == Ok::<
                    _,
                    SpecDecodeError,
                >(p.1@) && spec_apply(old(db)@, p.1@) == Ok::<_, ApplyError>(final(db)@))
                &&& (r matches Err(e) ==> final(db)@ == old(db)@)
                &&& (r matches Err(e) ==> (e@ matches SpecCommandError::Decode(de)
                    ==> spec_parse_entry(line) == Err::<SpecLogEntry, _>(de)))
                &&& (r matches Err(e) ==> (e@ matches SpecCommandError::Apply(ae) ==> (
                spec_parse_entry(line) matches Ok(pe) && spec_apply(old(db)@, pe) == Err::<
                    SpecProject,
                    _,
                >(ae))))
                &&& (r matches Err(e) ==> (e@ == SpecCommandError::NoItemFound || (
                e@ matches SpecCommandError::Decode(_)) || (
                e@ matches SpecCommandError::Apply(_))))
            }),
    {
        let ghost raw = cmd.params_raw@;
        let v = str_to_chars(cmd.params_raw.as_str());
        proof {
            assert(v@.skip(0) =~= v@);
        }
        let (t1, p1) = read_token(&v, 0);
        let (t2, p2) = read_token(&v, p1);
        let mut text_chars: Vec<char> = Vec::new();
        match parse_i32_chars(&t2) {
            Some(m) if m >= 0 => {
                let pos = m as usize;
                match db.get_item_id_by_pos(pos) {
                    Some(id) => {
                        let mut head = t1;
                        text_chars.append(&mut head);
                        text_chars.push(' ');
                        push_hex32(&mut text_chars, id.0);
                        let n = v.len();
                        let mut rest = subvec(&v, p2, n);
                        text_chars.append(&mut rest);
                        proof {
                            assert(text_chars@ =~= spec_rebuilt(raw, old(db)@.items[
                                spec_set_position(raw)->0].id));
                        }
                    },
                    None => {
                        return Err(CommandError::NoItemFound);
                    },
                }
            },
            _ => {
                let mut whole = str_to_chars(cmd.params_raw.as_str());
                text_chars.append(&mut whole);
                proof {
                    assert(text_chars@ =~= raw);
                }
            },
        }
        let text = chars_to_string(&text_chars);
        proof {
            let pos = spec_set_position(raw);
            assert(text@ == (if pos matches Some(n) && 0 <= n < old(db)@.items.len() {
                spec_rebuilt(raw, old(db)@.items[pos->0].id)
            } else {
                raw
            }));
            assert(db@ == old(db)@);
        }
        let entry = match LogEntry::from_user_input(cmd, text.as_str()) {
            Ok(e) => e,
            Err(de) => {
                return Err(CommandError::Decode(de));
            },
        };
        match apply(db, &entry) {
            Ok(_) => Ok(("Ok".to_owned(), entry)),
            Err(ae) => Err(CommandError::Apply(ae)),
        }
    }
}

} // verus!
