//! The per-invocation context a command runs in, and the user's raw input.
//! Discovering these values (the working directory, the process arguments,
//! the clock, a fresh identifier) is the shell's job; here they are plain
//! values with exact contracts.

use vstd::prelude::*;
use crate::chars::{str_to_chars, chars_to_string, read_token, append_str, tok_of, rest_of, ws_len, lemma_ws_len_is};
use crate::date::Date;
use crate::item::ItemId;

verus! {

/// What one invocation of the tracker runs against: the version, the user,
/// where it stands, and the raw command text.
#[derive(Debug, Clone, PartialEq, Eq)]
pub struct Context {
    pub yo_version: String,
    pub username: String,
    pub current_dir: String,
    pub is_project_path: bool,
    pub current_project_path: Option<String>,
    pub args_raw: Vec<String>,
    pub args: String,
}

impl Context {
    /// A context from its plain parts.
    pub fn new(
        yo_version: String,
        username: String,
        current_dir: String,
        current_project_path: Option<String>,
        args_raw: Vec<String>,
        args: String,
    ) -> (r: Context)
        ensures
            r.yo_version == yo_version,
            r.username == username,
            r.current_dir == current_dir,
            r.is_project_path == (current_project_path is Some),
            r.current_project_path == current_project_path,
            r.args_raw == args_raw,
            r.args == args,
    {
        let is_project_path = current_project_path.is_some();
        Context {
            yo_version,
            username,
            current_dir,
            is_project_path,
            current_project_path,
            args_raw,
            args,
        }
    }

    pub fn username(&self) -> (r: &str)
        ensures
            r@ == self.username@,
    {
        self.username.as_str()
    }

    pub fn current_dir(&self) -> (r: &String)
        ensures
            r == self.current_dir,
    {
        &self.current_dir
    }

    pub fn current_project_path(&self) -> (r: Option<&String>)
        ensures
            match r {
                Some(p) => self.current_project_path == Some(*p),
                None => self.current_project_path is None,
            },
    {
        match &self.current_project_path {
            Some(p) => Some(p),
            None => None,
        }
    }

    pub fn is_project_path(&self) -> (r: bool)
        ensures
            r == self.is_project_path,
    {
        self.is_project_path
    }

    pub fn yo_version(&self) -> (r: &str)
        ensures
            r@ == self.yo_version@,
    {
        self.yo_version.as_str()
    }

    pub fn args_raw(&self) -> (r: &Vec<String>)
        ensures
            r == self.args_raw,
    {
        &self.args_raw
    }

    pub fn args(&self) -> (r: &str)
        ensures
            r@ == self.args@,
    {
        self.args.as_str()
    }
}

/// The words `args[i..]` joined with single blanks.
pub open spec fn spec_join_from(args: Seq<Seq<char>>, i: int) -> Seq<char>
    decreases args.len() - i,
{
    if i < 0 || i >= args.len() {
        Seq::empty()
    } else if i == args.len() - 1 {
        args[i]
    } else {
        args[i] + seq![' '] + spec_join_from(args, i + 1)
    }
}

/// The command text of an invocation: everything after the program name,
/// joined with single blanks; empty when only the program name was given.
pub open spec fn spec_args_text(args: Seq<Seq<char>>) -> Seq<char> {
    if args.len() <= 1 {
        Seq::empty()
    } else {
        spec_join_from(args, 1)
    }
}

/// Joins the raw argument list into the one command text the tracker parses.
pub fn join_args(args_raw: &Vec<String>) -> (r: String)
    ensures
        r@ == spec_args_text(args_raw.deep_view()),
{
    let ghost dv = args_raw.deep_view();
    let n = args_raw.len();
    if n <= 1 {
        return String::new();
    }
    let mut out: Vec<char> = Vec::new();
    let mut i: usize = 1;
    while i < n
        invariant
            1 <= i <= n,
            n == args_raw.len(),
            n > 1,
            dv == args_raw.deep_view(),
            i < n ==> out@ + spec_join_from(dv, i as int) == spec_join_from(dv, 1),
            i == n ==> out@ == spec_join_from(dv, 1),
        decreases n - i,
    {
        proof {
            assert(dv[i as int] == args_raw@[i as int].deep_view());
        }
        let ghost out0 = out@;
        append_str(&mut out, args_raw[i].as_str());
        if i + 1 < n {
            out.push(' ');
        }
        proof {
            if i + 1 < n {
                assert(out@ =~= out0 + (dv[i as int] + seq![' ']));
                assert(out@ + spec_join_from(dv, i + 1) =~= out0 + spec_join_from(dv, i as int));
            } else {
                assert(out@ =~= out0 + dv[i as int]);
            }
        }
        i = i + 1;
    }
    chars_to_string(&out)
}

/// One parsed command invocation: a fresh entry identifier, the moment and
/// the user it runs as, and the command text split into its head word and
/// the rest.
#[derive(Debug, Clone, PartialEq, Eq)]
pub struct UserInput {
    pub id: ItemId,
    pub date: Date,
    pub userid: String,
    pub cmd_str: Option<String>,
    pub param_str: Option<String>,
    pub params_raw: String,
}

impl UserInput {
    /// Splits the context's argument text into the command word and its
    /// parameter text (what follows the first blank run, kept as it
    /// stands). The entry identifier and the timestamp come from the shell.
    pub fn new(ctx: &Context, id: ItemId, date: Date) -> (r: UserInput)
        ensures
            r.id == id,
            r.date == date,
            r.userid@ == ctx.username@,
            tok_of(ctx.args@).len() == 0 ==> r.cmd_str is None && r.param_str is None,
            tok_of(ctx.args@).len() > 0 ==> (r.cmd_str matches Some(c) && c@ == tok_of(
                ctx.args@,
            )),
            ({
                let rest = rest_of(ctx.args@);
                let ptext = rest.skip(ws_len(rest));
                tok_of(ctx.args@).len() > 0 && ptext.len() > 0 ==> (r.param_str matches Some(p)
                    && p@ == ptext)
            }),
            ({
                let rest = rest_of(ctx.args@);
                let ptext = rest.skip(ws_len(rest));
                !(tok_of(ctx.args@).len() > 0 && ptext.len() > 0) ==> r.param_str is None
            }),
            r.params_raw == ctx.args,
    {
        let v = str_to_chars(ctx.args.as_str());
        proof {
            assert(v@.skip(0) =~= v@);
        }
        let (tok, p1) = read_token(&v, 0);
        let ghost rest = rest_of(ctx.args@);
        let n = v.len();
        let mut j = p1;
        while j < n && (v[j] == ' ' || v[j] == '\t')
            invariant
                p1 <= j <= n,
                n == v.len(),
                forall|k: int| p1 <= k < j ==> crate::chars::is_ws(#[trigger] v@[k]),
            decreases n - j,
        {
            j = j + 1;
        }
        proof {
            assert forall|k: int| 0 <= k < j - p1 implies crate::chars::is_ws(
                #[trigger] rest[k],
            ) by {
                assert(rest[k] == v@[p1 + k]);
            }
            if j < n {
                assert(rest[j - p1] == v@[j as int]);
            }
            lemma_ws_len_is(rest, j - p1);
            assert(rest.skip(ws_len(rest)) =~= v@.subrange(j as int, n as int));
        }
        let cmd_str = if tok.len() > 0 {
            Some(chars_to_string(&tok))
        } else {
            None
        };
        let param_str = if tok.len() > 0 && j < n {
            let ptext = crate::chars::subvec(&v, j, n);
            Some(chars_to_string(&ptext))
        } else {
            None
        };
        UserInput { id, date, userid: ctx.username.clone(), cmd_str, param_str, params_raw: ctx.args.clone() }
    }

    pub fn id(&self) -> (r: &ItemId)
        ensures
            r == self.id,
    {
        &self.id
    }

    pub fn date(&self) -> (r: &Date)
        ensures
            r == self.date,
    {
        &self.date
    }

    pub fn userid(&self) -> (r: &str)
        ensures
            r@ == self.userid@,
    {
        self.userid.as_str()
    }

    pub fn cmd_str(&self) -> (r: Option<&str>)
        ensures
            match r {
                Some(c) => self.cmd_str matches Some(cs) && cs@ == c@,
                None => self.cmd_str is None,
            },
    {
        match &self.cmd_str {
            Some(c) => Some(c.as_str()),
            None => None,
        }
    }

    pub fn param_str(&self) -> (r: Option<&str>)
        ensures
            match r {
                Some(p) => self.param_str matches Some(ps) && ps@ == p@,
                None => self.param_str is None,
            },
    {
        match &self.param_str {
            Some(p) => Some(p.as_str()),
            None => None,
        }
    }

    /// The first blank-separated token of the parameter text, if any: where
    /// a command expects an item reference, this is it.
    pub fn param_id(&self) -> (r: Option<String>)
        ensures
            match r {
                Some(t) => self.param_str matches Some(ps) && t@ == tok_of(ps@) && t@.len() > 0,
                None => self.param_str matches Some(ps) ==> tok_of(ps@).len() == 0,
            },
    {
        match &self.param_str {
            Some(p) => {
                let v = str_to_chars(p.as_str());
                proof {
                    assert(v@.skip(0) =~= v@);
                }
                let (tok, _) = read_token(&v, 0);
                if tok.len() > 0 {
                    Some(chars_to_string(&tok))
                } else {
                    None
                }
            },
            None => None,
        }
    }

    pub fn params_raw(&self) -> (r: &str)
        ensures
            r@ == self.params_raw@,
    {
        self.params_raw.as_str()
    }
}

} // verus!
