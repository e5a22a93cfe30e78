//! The vault manager's table: the state each known vault is shown in, the
//! first line of a load error, and what a finished load reports.

use vstd::prelude::*;
use vstd::string::StringExecFns;
use crate::query::TaskError;

verus! {

/// How a row of the vault table is shown: a vault without a known file
/// (with its error and an "Open..." button), the current vault, or another
/// vault (with "Change..." and "Select" buttons).
#[derive(Debug, Copy, Clone, PartialEq, Eq, Structural)]
pub enum VaultRowKind {
    Unresolved,
    Current,
    Other,
}

/// The kind of a row, from whether the vault's file is known and whether
/// it is the current vault.
pub fn row_kind(has_path: bool, is_current: bool) -> (k: VaultRowKind)
    ensures
        k == (if !has_path {
            VaultRowKind::Unresolved
        } else if is_current {
            VaultRowKind::Current
        } else {
            VaultRowKind::Other
        }),
{
    if !has_path {
        VaultRowKind::Unresolved
    } else if is_current {
        VaultRowKind::Current
    } else {
        VaultRowKind::Other
    }
}

/// Position of the first line feed of `s`, or its length.
pub open spec fn first_newline(s: Seq<char>) -> int
    decreases s.len(),
{
    if s.len() == 0 {
        0
    } else if s[0] == '\n' {
        0
    } else {
        1 + first_newline(s.drop_first())
    }
}

/// The first line of a text, as `str::lines` gives it: up to the first line
/// feed, without a carriage return just before it; `None` for an empty text.
pub open spec fn first_line_spec(s: Seq<char>) -> Option<Seq<char>> {
    if s.len() == 0 {
        None
    } else {
        let i = first_newline(s);
        let line = s.take(i);
        if i < s.len() && line.len() > 0 && line.last() == '\r' {
            Some(line.drop_last())
        } else {
            Some(line)
        }
    }
}

proof fn lemma_first_newline(s: Seq<char>, k: int)
    requires
        0 <= k <= s.len(),
        forall|j: int| 0 <= j < k ==> s[j] != '\n',
    ensures
        k <= first_newline(s) <= s.len(),
        first_newline(s) < s.len() ==> s[first_newline(s)] == '\n',
        forall|j: int| 0 <= j < first_newline(s) ==> s[j] != '\n',
    decreases s.len(),
{
    if s.len() > 0 && s[0] != '\n' {
        let t = s.drop_first();
        assert forall|j: int| 0 <= j < (if k > 0 { k - 1 } else { 0 }) implies t[j] != '\n' by {
            assert(t[j] == s[j + 1]);
        }
        lemma_first_newline(t, if k > 0 { k - 1 } else { 0 });
        assert forall|j: int| 0 <= j < first_newline(s) implies s[j] != '\n' by {
            if j > 0 {
                assert(s[j] == t[j - 1]);
            }
        }
    }
}

/// The first line of `s`, as `str::lines` gives it.
pub fn first_line(s: &str) -> (r: Option<String>)
    ensures
        match (r, first_line_spec(s@)) {
            (Some(a), Some(b)) => a@ == b,
            (None, None) => true,
            _ => false,
        },
{
    broadcast use vstd::string::group_string_axioms;

    let ghost sv = s@;
    let total = s.as_bytes().len();
    proof {
        crate::text::lemma_byte_offset_total(sv);
        crate::text::lemma_byte_offset_at_least(sv, sv.len() as int);
    }
    let mut line = String::new();
    let mut found = false;
    let mut count: usize = 0;
    for c in it: s.chars()
        invariant
            it.seq() == sv,
            sv == s@,
            count == it.index(),
            count <= sv.len(),
            sv.len() <= total,
            !found ==> line@ == sv.take(count as int) && forall|j: int|
                0 <= j < count ==> sv[j] != '\n',
            found ==> line@ == sv.take(first_newline(sv)) && first_newline(sv) < sv.len(),
    {
        assert(count < sv.len());
        if !found {
            if c == '\n' {
                proof {
                    lemma_first_newline(sv, count as int);
                    if first_newline(sv) > count {
                        assert(sv[count as int] != '\n');
                    }
                }
                found = true;
            } else {
                crate::fmt::string_push(&mut line, c);
                assert(sv.take(count + 1) =~= sv.take(count as int).push(c));
            }
        }
        count = count + 1;
    }
    if count == 0 {
        return None;
    }
    if !found {
        proof {
            lemma_first_newline(sv, sv.len() as int);
            assert(sv.take(sv.len() as int) =~= sv);
        }
        return Some(line);
    }
    let n = line.as_str().unicode_len();
    if n > 0 && line.as_str().get_char(n - 1) == '\r' {
        let trimmed = line.as_str().substring_char(0, n - 1).to_owned();
        assert(trimmed@ =~= line@.drop_last());
        Some(trimmed)
    } else {
        Some(line)
    }
}

/// The status shown for a vault without a known file: the first line of
/// its load error ("?" for an empty error), or "Not resolved".
pub open spec fn unresolved_status(error: Option<Seq<char>>) -> Seq<char> {
    match error {
        Some(e) => match first_line_spec(e) {
            Some(l) => l,
            None => "?"@,
        },
        None => "Not resolved"@,
    }
}

/// The status shown for a vault without a known file.
pub fn unresolved_status_text(error: Option<&str>) -> (r: String)
    ensures
        r@ == unresolved_status(match error {
            Some(e) => Some(e@),
            None => None,
        }),
{
    proof {
        reveal_strlit("?");
        reveal_strlit("Not resolved");
    }
    match error {
        Some(e) => match first_line(e) {
            Some(l) => l,
            None => "?".to_owned(),
        },
        None => "Not resolved".to_owned(),
    }
}

/// How the load of a vault, started from its row, ended.
pub enum LoadOutcome {
    /// A vault was loaded, under this name.
    Loaded(String),
    /// The task ended with another kind of result, described by this text.
    Unexpected(String),
    /// The task failed or was cancelled.
    Failed(TaskError),
}

/// The error that a finished load leaves on the row of the vault `name`:
/// none for the vault loaded under its own name or a cancelled load (the
/// row keeps what it had), a message otherwise.
pub open spec fn load_message_spec(name: Seq<char>, outcome: LoadOutcome) -> Option<Seq<char>> {
    match outcome {
        LoadOutcome::Loaded(res_name) => if res_name@ == name {
            None
        } else {
            Some("Vault has wrong name (expected "@ + name + ", got "@ + res_name@ + ")"@)
        },
        LoadOutcome::Unexpected(desc) => Some("Unexpected task result: "@ + desc@),
        LoadOutcome::Failed(TaskError::UserCancelled) => None,
        LoadOutcome::Failed(TaskError::Failed(e)) => Some(e@),
    }
}

/// The error that a finished load leaves on the row of the vault `name`.
pub fn load_message(name: &str, outcome: LoadOutcome) -> (r: Option<String>)
    ensures
        match (r, load_message_spec(name@, outcome)) {
            (Some(a), Some(b)) => a@ == b,
            (None, None) => true,
            _ => false,
        },
{
    proof {
        reveal_strlit("Vault has wrong name (expected ");
        reveal_strlit(", got ");
        reveal_strlit(")");
        reveal_strlit("Unexpected task result: ");
    }
    match outcome {
        LoadOutcome::Loaded(res_name) => {
            if res_name == name.to_owned() {
                None
            } else {
                let mut m = "Vault has wrong name (expected ".to_owned();
                m.append(name);
                m.append(", got ");
                m.append(res_name.as_str());
                m.append(")");
                Some(m)
            }
        },
        LoadOutcome::Unexpected(desc) => {
            let mut m = "Unexpected task result: ".to_owned();
            m.append(desc.as_str());
            Some(m)
        },
        LoadOutcome::Failed(TaskError::UserCancelled) => None,
        LoadOutcome::Failed(TaskError::Failed(e)) => Some(e),
    }
}

} // verus!
