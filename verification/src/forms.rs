//! Checks that the dialogs make before they start work: names that must not
//! be blank, download settings and bulk transformation settings.

use vstd::prelude::*;
use vstd::string::StringExecFns;

verus! {

/// The characters that Unicode gives the `White_Space` property, which
/// `char::is_whitespace` and `str::trim` use.
pub open spec fn is_whitespace_spec(c: char) -> bool {
    let u = c as u32;
    (0x9 <= u <= 0xD) || u == 0x20 || u == 0x85 || u == 0xA0 || u == 0x1680 || (0x2000 <= u
        <= 0x200A) || u == 0x2028 || u == 0x2029 || u == 0x202F || u == 0x205F || u == 0x3000
}

/// Whether `c` is white space in the sense of Unicode's `White_Space` property.
pub fn is_whitespace(c: char) -> (r: bool)
    ensures
        r == is_whitespace_spec(c),
{
    let u = c as u32;
    (0x9 <= u && u <= 0xD) || u == 0x20 || u == 0x85 || u == 0xA0 || u == 0x1680 || (0x2000 <= u
        && u <= 0x200A) || u == 0x2028 || u == 0x2029 || u == 0x202F || u == 0x205F || u == 0x3000
}

/// Text that is empty once white space is trimmed from both ends.
pub open spec fn is_blank_spec(s: Seq<char>) -> bool {
    forall|i: int| 0 <= i < s.len() ==> is_whitespace_spec(#[trigger] s[i])
}

/// Whether `s` is empty once white space is trimmed from both ends, that is,
/// whether it holds nothing but white space.
pub fn is_blank(s: &str) -> (r: bool)
    ensures
        r == is_blank_spec(s@),
{
    broadcast use vstd::string::group_string_axioms;

    for c in it: s.chars()
        invariant
            it.seq() == s@,
            forall|j: int| 0 <= j < it.index() ==> is_whitespace_spec(#[trigger] s@[j]),
    {
        if !is_whitespace(c) {
            return false;
        }
    }
    true
}

/// `prefix` followed by `e`.
fn join_message(prefix: &str, e: &str) -> (r: String)
    ensures
        r@ == prefix@ + e@,
{
    let mut r = String::from_str(prefix);
    r.append(e);
    r
}

/// Checks the name of a new vault.
pub fn validate_new_vault_name(name: &str) -> (r: Result<(), &'static str>)
    ensures
        r is Ok <==> !is_blank_spec(name@),
        r matches Err(m) ==> m@ == "Please enter a vault name."@,
{
    if is_blank(name) {
        Err("Please enter a vault name.")
    } else {
        Ok(())
    }
}

/// What the new-vault dialog remembers between frames.
pub struct NewVaultState {
    /// The name typed so far.
    pub name: String,
    /// Why the last name was refused.
    pub error_message: Option<String>,
    /// The dialog was opened.
    pub opened: bool,
}

impl NewVaultState {
    /// An empty dialog, not yet opened.
    pub fn new() -> (s: Self)
        ensures
            s.name@.len() == 0,
            s.error_message is None,
            !s.opened,
    {
        NewVaultState { name: String::new(), error_message: None, opened: false }
    }

    /// The "Create" button: a blank name is refused with a message; any
    /// other name is handed back, as typed, for the vault to be created, and
    /// the dialog starts afresh.
    pub fn on_create_clicked(&mut self) -> (r: Option<String>)
        ensures
            is_blank_spec(old(self).name@) ==> r is None && final(self).name@ == old(self).name@
                && (final(self).error_message matches Some(m) && m@ == "Please enter a vault name."@)
                && final(self).opened == old(self).opened,
            !is_blank_spec(old(self).name@) ==> (r matches Some(n) && n@ == old(self).name@)
                && final(self).name@.len() == 0 && final(self).error_message is None
                && !final(self).opened,
    {
        match validate_new_vault_name(self.name.as_str()) {
            Err(e) => {
                self.error_message = Some(e.to_owned());
                None
            },
            Ok(()) => {
                let mut name = String::new();
                std::mem::swap(&mut name, &mut self.name);
                self.error_message = None;
                self.opened = false;
                Some(name)
            },
        }
    }
}

/// Checks the choice of vault to link with.
pub fn validate_link_vault(selected_vault_name: &str) -> (r: Result<(), String>)
    ensures
        r is Ok <==> selected_vault_name@.len() > 0,
        r matches Err(m) ==> m@ == "Please select a vault to link."@,
{
    if selected_vault_name.is_empty() {
        Err(String::from_str("Please select a vault to link."))
    } else {
        Ok(())
    }
}

/// The message that refuses saving a definition named `name` (`None` when
/// there is no definition), or `None` when it may be saved.
pub open spec fn definition_error(
    name: Option<Seq<char>>,
    vault_found: bool,
    hierarchy_error: Option<Seq<char>>,
) -> Option<Seq<char>> {
    match name {
        None => Some("Definition does not exist"@),
        Some(n) => if is_blank_spec(n) {
            Some("Name must not be empty"@)
        } else if !vault_found {
            Some("No vault found"@)
        } else {
            match hierarchy_error {
                Some(e) => Some("Hierarchy error: "@ + e),
                None => None,
            }
        },
    }
}

/// Checks a tag definition before it is saved: there must be one, its name
/// must not be blank, a vault must be open, and the vault must have found no
/// error in the definition's place in the hierarchy.
pub fn validate_definition(
    name: Option<&str>,
    vault_found: bool,
    hierarchy_error: Option<&str>,
) -> (r: Result<(), String>)
    ensures
        match name {
            None => r matches Err(m) && m@ == "Definition does not exist"@,
            Some(n) => if is_blank_spec(n@) {
                r matches Err(m) && m@ == "Name must not be empty"@
            } else if !vault_found {
                r matches Err(m) && m@ == "No vault found"@
            } else {
                match hierarchy_error {
                    Some(e) => r matches Err(m) && m@ == "Hierarchy error: "@ + e@,
                    None => r is Ok,
                }
            },
        },
{
    match name {
        None => Err(String::from_str("Definition does not exist")),
        Some(n) => {
            if is_blank(n) {
                return Err(String::from_str("Name must not be empty"));
            }
            if !vault_found {
                return Err(String::from_str("No vault found"));
            }
            match hierarchy_error {
                Some(e) => Err(join_message("Hierarchy error: ", e)),
                None => Ok(()),
            }
        },
    }
}

} // verus!
