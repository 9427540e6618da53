//! Reading one input line as a command.
use vstd::prelude::*;

verus! {

broadcast use vstd::seq_lib::group_seq_properties;

/// A character that separates tokens: a space or a tab.
pub open spec fn is_blank(c: char) -> bool {
    c == ' ' || c == '\t'
}

/// The tokens of `s`: its maximal runs of characters that are not blanks,
/// in order, with no empty tokens, as `split_whitespace` gives them for
/// spaces and tabs.
pub open spec fn split_fields(s: Seq<char>) -> Seq<Seq<char>>
    decreases s.len(),
{
    if s.len() == 0 {
        Seq::empty()
    } else {
        let prev = split_fields(s.drop_last());
        let c = s.last();
        if is_blank(c) {
            prev
        } else if s.len() >= 2 && !is_blank(s[s.len() - 2]) {
            prev.update(prev.len() - 1, prev.last().push(c))
        } else {
            prev.push(seq![c])
        }
    }
}

pub open spec fn is_digit(c: char) -> bool {
    '0' <= c && c <= '9'
}

/// The number that the decimal digits `s` write.
pub open spec fn digits_value(s: Seq<char>) -> nat
    decreases s.len(),
{
    if s.len() == 0 {
        0
    } else {
        digits_value(s.drop_last()) * 10 + ((s.last() as u32) - ('0' as u32)) as nat
    }
}

/// The position a `del` argument names: one or more decimal digits whose
/// value fits in `usize`.
pub open spec fn index_of(s: Seq<char>) -> Option<nat> {
    if s.len() > 0 && (forall|i: int| 0 <= i < s.len() ==> is_digit(#[trigger] s[i]))
        && digits_value(s) <= usize::MAX {
        Some(digits_value(s))
    } else {
        None
    }
}

/// The verbs of the command language.
#[derive(Debug, Clone, Copy, PartialEq, Eq)]
pub enum Verb {
    Signup,
    Login,
    Create,
    Append,
    Get,
    Del,
    Exit,
}

/// The verb that a first field names, if any.
pub open spec fn verb_of(w: Seq<char>) -> Option<Verb> {
    if w == "signup"@ {
        Some(Verb::Signup)
    } else if w == "login"@ {
        Some(Verb::Login)
    } else if w == "create"@ {
        Some(Verb::Create)
    } else if w == "set"@ {
        Some(Verb::Append)
    } else if w == "get"@ {
        Some(Verb::Get)
    } else if w == "del"@ {
        Some(Verb::Del)
    } else if w == "exit"@ {
        Some(Verb::Exit)
    } else {
        None
    }
}

/// How many arguments a verb takes.
pub open spec fn arity(v: Verb) -> nat {
    match v {
        Verb::Signup | Verb::Exit => 0,
        Verb::Login | Verb::Create | Verb::Get => 1,
        Verb::Append | Verb::Del => 2,
    }
}

/// A command with its arguments.
#[derive(Debug, PartialEq, Eq)]
pub enum Command {
    Signup,
    Login(String),
    Create(String),
    Append(String, String),
    Get(String),
    Del(String, usize),
    Exit,
}

/// Why a line is not a command.
#[derive(Debug, Clone, Copy, PartialEq, Eq)]
pub enum CommandError {
    /// A known verb with the wrong number of arguments, or a bad position.
    ArgumentError,
    /// The first field is no verb.
    InvalidCommand,
}

/// What `parse_command` gives for a line whose fields are `f`.
pub open spec fn parsed(f: Seq<Seq<char>>, r: Result<Command, CommandError>) -> bool {
    if f.len() == 0 {
        r == Err::<Command, CommandError>(CommandError::InvalidCommand)
    } else {
    match verb_of(f[0]) {
        None => r == Err::<Command, CommandError>(CommandError::InvalidCommand),
        Some(v) => {
            if f.len() != arity(v) + 1 {
                r == Err::<Command, CommandError>(CommandError::ArgumentError)
            } else {
                match v {
                    Verb::Signup => r == Ok::<Command, CommandError>(Command::Signup),
                    Verb::Exit => r == Ok::<Command, CommandError>(Command::Exit),
                    Verb::Login => r matches Ok(Command::Login(t)) && t@ == f[1],
                    Verb::Create => r matches Ok(Command::Create(t)) && t@ == f[1],
                    Verb::Get => r matches Ok(Command::Get(k)) && k@ == f[1],
                    Verb::Append => r matches Ok(Command::Append(k, t)) && k@ == f[1] && t@ == f[2],
                    Verb::Del => match index_of(f[2]) {
                        None => r == Err::<Command, CommandError>(CommandError::ArgumentError),
                        Some(n) => r matches Ok(Command::Del(k, i)) && k@ == f[1] && i == n,
                    },
                }
            }
        },
    }
    }
}

/// The tokens of `input`, split at runs of spaces and tabs.
pub fn get_args_multi(input: &str) -> (r: Vec<String>)
    ensures
        r@.map_values(|s: String| s@) == split_fields(input@),
{
    let n = input.unicode_len();
    let mut done: Vec<String> = Vec::new();
    let mut start: usize = 0;
    let mut in_token = false;
    let mut i: usize = 0;
    while i < n
        invariant
            n == input@.len(),
            0 <= start <= i <= n,
            in_token == (i > 0 && !is_blank(input@[i - 1])),
            in_token ==> start < i && split_fields(input@.subrange(0, i as int)) == done@.map_values(
                |s: String| s@,
            ).push(input@.subrange(start as int, i as int)),
            !in_token ==> split_fields(input@.subrange(0, i as int)) == done@.map_values(
                |s: String| s@,
            ),
        decreases n - i,
    {
        let c = input.get_char(i);
        let ghost prev = split_fields(input@.subrange(0, i as int));
        let ghost before = done@.map_values(|s: String| s@);
        proof {
            let t = input@.subrange(0, i + 1);
            assert(t.drop_last() =~= input@.subrange(0, i as int));
            assert(t.last() == c);
            if i > 0 {
                assert(t[t.len() - 2] == input@[i - 1]);
            }
        }
        if c == ' ' || c == '\t' {
            if in_token {
                let field = input.substring_char(start, i).to_owned();
                done.push(field);
                assert(done@.map_values(|s: String| s@) =~= before.push(
                    input@.subrange(start as int, i as int),
                ));
            }
            in_token = false;
        } else if in_token {
            assert(input@.subrange(start as int, i + 1) =~= input@.subrange(
                start as int,
                i as int,
            ).push(c));
            assert(prev.update(prev.len() - 1, prev.last().push(c)) =~= before.push(
                input@.subrange(start as int, i + 1),
            ));
        } else {
            start = i;
            in_token = true;
            assert(input@.subrange(start as int, i + 1) =~= seq![c]);
        }
        i = i + 1;
    }
    assert(input@.subrange(0, n as int) =~= input@);
    if in_token {
        let last = input.substring_char(start, n).to_owned();
        let ghost before = done@.map_values(|s: String| s@);
        done.push(last);
        assert(done@.map_values(|s: String| s@) =~= before.push(
            input@.subrange(start as int, n as int),
        ));
    }
    done
}

/// The one argument of a command line `"<verb> <argument>"`; an error when
/// the line has another number of fields.
pub fn get_args(input: &str) -> (r: Result<String, String>)
    ensures
        split_fields(input@).len() == 2 ==> r is Ok && r->Ok_0@ == split_fields(input@)[1],
        split_fields(input@).len() != 2 ==> r is Err && r->Err_0@
            == "Must have one and only one argument"@,
{
    let mut cmds = get_args_multi(input);
    if cmds.len() != 2 {
        Err("Must have one and only one argument".to_owned())
    } else {
        let arg = cmds.remove(1);
        Ok(arg)
    }
}

fn same_text(s: &str, w: &str) -> (r: bool)
    ensures
        r == (s@ == w@),
{
    let n = s.unicode_len();
    if n != w.unicode_len() {
        return false;
    }
    let mut i: usize = 0;
    while i < n
        invariant
            n == s@.len() == w@.len(),
            0 <= i <= n,
            s@.subrange(0, i as int) == w@.subrange(0, i as int),
        decreases n - i,
    {
        if s.get_char(i) != w.get_char(i) {
            return false;
        }
        assert(s@.subrange(0, i + 1) =~= s@.subrange(0, i as int).push(s@[i as int]));
        assert(w@.subrange(0, i + 1) =~= w@.subrange(0, i as int).push(w@[i as int]));
        i = i + 1;
    }
    assert(s@ =~= s@.subrange(0, n as int));
    assert(w@ =~= w@.subrange(0, n as int));
    true
}

/// The verb that `w` names, if any.
pub fn verb(w: &str) -> (r: Option<Verb>)
    ensures
        r == verb_of(w@),
{
    if same_text(w, "signup") {
        Some(Verb::Signup)
    } else if same_text(w, "login") {
        Some(Verb::Login)
    } else if same_text(w, "create") {
        Some(Verb::Create)
    } else if same_text(w, "set") {
        Some(Verb::Append)
    } else if same_text(w, "get") {
        Some(Verb::Get)
    } else if same_text(w, "del") {
        Some(Verb::Del)
    } else if same_text(w, "exit") {
        Some(Verb::Exit)
    } else {
        None
    }
}

proof fn lemma_digits_value_grows(s: Seq<char>, i: int)
    requires
        0 <= i <= s.len(),
        forall|k: int| 0 <= k < s.len() ==> is_digit(#[trigger] s[k]),
    ensures
        digits_value(s.subrange(0, i)) <= digits_value(s),
    decreases s.len() - i,
{
    if i < s.len() {
        lemma_digits_value_grows(s, i + 1);
        let t = s.subrange(0, i + 1);
        assert(t.drop_last() =~= s.subrange(0, i));
    } else {
        assert(s.subrange(0, i) =~= s);
    }
}

/// The 1-based position written by `s`; `None` when `s` is empty, holds a
/// character other than a decimal digit, or names a number past `usize::MAX`.
pub fn parse_index(s: &str) -> (r: Option<usize>)
    ensures
        match index_of(s@) {
            None => r is None,
            Some(n) => r == Some(n as usize),
        },
{
    let n = s.unicode_len();
    if n == 0 {
        return None;
    }
    let mut acc: usize = 0;
    let mut fits = true;
    let mut i: usize = 0;
    while i < n
        invariant
            n == s@.len(),
            0 <= i <= n,
            forall|k: int| 0 <= k < i ==> is_digit(#[trigger] s@[k]),
            fits ==> acc == digits_value(s@.subrange(0, i as int)),
            !fits ==> digits_value(s@.subrange(0, i as int)) > usize::MAX,
        decreases n - i,
    {
        let c = s.get_char(i);
        if !('0' <= c && c <= '9') {
            return None;
        }
        let d = ((c as u32) - ('0' as u32)) as usize;
        let ghost t = s@.subrange(0, i + 1);
        assert(t.drop_last() =~= s@.subrange(0, i as int));
        if fits {
            if acc > (usize::MAX - d) / 10 {
                fits = false;
            } else {
                acc = acc * 10 + d;
            }
        }
        i = i + 1;
    }
    assert(s@.subrange(0, n as int) =~= s@);
    if fits {
        Some(acc)
    } else {
        None
    }
}

/// Reads a command line: its first field names the verb, the others are its
/// arguments.
pub fn parse_command(line: &str) -> (r: Result<Command, CommandError>)
    ensures
        parsed(split_fields(line@), r),
{
    let mut f = get_args_multi(line);
    let ghost fv = f@.map_values(|s: String| s@);
    if f.len() == 0 {
        return Err(CommandError::InvalidCommand);
    }
    assert(fv[0] == f@[0]@);
    let v = match verb(f[0].as_str()) {
        None => return Err(CommandError::InvalidCommand),
        Some(v) => v,
    };
    let want: usize = match v {
        Verb::Signup | Verb::Exit => 0,
        Verb::Login | Verb::Create | Verb::Get => 1,
        Verb::Append | Verb::Del => 2,
    };
    if f.len() != want + 1 {
        return Err(CommandError::ArgumentError);
    }
    assert(f.len() >= 2 ==> fv[1] == f@[1]@);
    assert(f.len() >= 3 ==> fv[2] == f@[2]@);
    match v {
        Verb::Signup => Ok(Command::Signup),
        Verb::Exit => Ok(Command::Exit),
        Verb::Login => Ok(Command::Login(f.remove(1))),
        Verb::Create => Ok(Command::Create(f.remove(1))),
        Verb::Get => Ok(Command::Get(f.remove(1))),
        Verb::Append => {
            let text = f.remove(2);
            let key = f.remove(1);
            Ok(Command::Append(key, text))
        },
        Verb::Del => {
            let index = match parse_index(f[2].as_str()) {
                None => return Err(CommandError::ArgumentError),
                Some(k) => k,
            };
            let key = f.remove(1);
            Ok(Command::Del(key, index))
        },
    }
}

} // verus!
