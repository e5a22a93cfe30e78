//! Message dialogs: informations, successes and errors shown to the user.

use vstd::prelude::*;
use vstd::string::StringExecFns;
use crate::fmt::{decimal, format_u64};

verus! {

/// A fresh random identifier, from `uuid::Uuid::new_v4` read as a `u128` with
/// `Uuid::as_u128`. The crate sets the version nibble (bits 76 to 79) to 4 and
/// the variant bits (62 and 63) to `10`; the other bits are random.
#[verifier::external_body]
pub(crate) fn new_random_id() -> (r: u128)
    ensures
        (r >> 76u128) & 0xfu128 == 4u128,
        (r >> 62u128) & 0x3u128 == 2u128,
{
    uuid::Uuid::new_v4().as_u128()
}

/// What a message is about; it decides the title and the icon.
#[derive(Debug, Copy, Clone, PartialEq, Eq, Structural)]
pub enum MessageType {
    Info,
    Success,
    Error,
}

impl Default for MessageType {
    fn default() -> (r: Self)
        ensures
            r == MessageType::Info,
    {
        MessageType::Info
    }
}

/// A message shown in a dialog with an "OK" button.
pub struct MessageDialog {
    pub id: u128,
    pub title: Option<String>,
    pub message: String,
    pub msg_type: MessageType,
    pub opened: bool,
}

/// The title shown when a message has none of its own.
pub open spec fn default_title(t: MessageType) -> Seq<char> {
    match t {
        MessageType::Info => "Info"@,
        MessageType::Success => "Success"@,
        MessageType::Error => "Error"@,
    }
}

/// The title a dialog shows.
pub open spec fn title_text(title: Option<String>, t: MessageType) -> Seq<char> {
    match title {
        Some(s) => s@,
        None => default_title(t),
    }
}

/// The text a dialog shows: errors are introduced as such.
pub open spec fn body_text(message: Seq<char>, t: MessageType) -> Seq<char> {
    match t {
        MessageType::Error => "An error has occurred "@ + message,
        _ => message,
    }
}

impl MessageDialog {
    fn with_type(message: String, msg_type: MessageType) -> (d: Self)
        ensures
            d.message@ == message@,
            d.msg_type == msg_type,
            d.title is None,
            !d.opened,
            (d.id >> 76u128) & 0xfu128 == 4u128,
    {
        MessageDialog { id: new_random_id(), title: None, message, msg_type, opened: false }
    }

    /// A dialog reporting an error.
    pub fn error(message: String) -> (d: Self)
        ensures
            d.message@ == message@,
            d.msg_type == MessageType::Error,
            d.title is None,
            !d.opened,
            (d.id >> 76u128) & 0xfu128 == 4u128,
    {
        Self::with_type(message, MessageType::Error)
    }

    /// A dialog giving information.
    pub fn info(message: String) -> (d: Self)
        ensures
            d.message@ == message@,
            d.msg_type == MessageType::Info,
            d.title is None,
            !d.opened,
            (d.id >> 76u128) & 0xfu128 == 4u128,
    {
        Self::with_type(message, MessageType::Info)
    }

    /// A dialog reporting a success.
    pub fn success(message: String) -> (d: Self)
        ensures
            d.message@ == message@,
            d.msg_type == MessageType::Success,
            d.title is None,
            !d.opened,
            (d.id >> 76u128) & 0xfu128 == 4u128,
    {
        Self::with_type(message, MessageType::Success)
    }

    /// The same dialog with its own title.
    pub fn with_title(self, title: String) -> (d: Self)
        ensures
            d.title matches Some(t) && t@ == title@,
            d.message@ == self.message@,
            d.msg_type == self.msg_type,
            d.id == self.id,
            d.opened == self.opened,
    {
        let mut d = self;
        d.title = Some(title);
        d
    }

    /// The title the dialog shows.
    pub fn display_title(&self) -> (s: String)
        ensures
            s@ == title_text(self.title, self.msg_type),
    {
        match &self.title {
            Some(t) => t.clone(),
            None => match self.msg_type {
                MessageType::Info => String::from_str("Info"),
                MessageType::Success => String::from_str("Success"),
                MessageType::Error => String::from_str("Error"),
            },
        }
    }

    /// The text the dialog shows.
    pub fn display_body(&self) -> (s: String)
        ensures
            s@ == body_text(self.message@, self.msg_type),
    {
        match self.msg_type {
            MessageType::Error => {
                let mut s = String::from_str("An error has occurred ");
                s.append(self.message.as_str());
                s
            },
            _ => self.message.clone(),
        }
    }

    /// Records that the dialog has been opened.
    pub fn mark_opened(&mut self)
        ensures
            final(self).opened,
            final(self).id == old(self).id,
            final(self).title == old(self).title,
            final(self).message == old(self).message,
            final(self).msg_type == old(self).msg_type,
    {
        self.opened = true;
    }
}

/// The dialog that reports an unexpected error.
pub struct ErrorDialog {
    pub message: String,
}

impl ErrorDialog {
    /// A dialog with no message yet.
    pub fn new() -> (d: Self)
        ensures
            d.message@.len() == 0,
    {
        ErrorDialog { message: String::new() }
    }

    /// Sets the message that the dialog reports when it opens.
    pub fn set_message(&mut self, message: String)
        ensures
            final(self).message@ == message@,
    {
        self.message = message;
    }

    /// The text the dialog shows.
    pub fn display_body(&self) -> (s: String)
        ensures
            s@ == "An error has occurred:\n"@ + self.message@,
    {
        let mut s = String::from_str("An error has occurred:\n");
        s.append(self.message.as_str());
        s
    }
}

/// Number of imports that succeeded.
pub open spec fn success_count(results: Seq<bool>) -> nat
    decreases results.len(),
{
    if results.len() == 0 {
        0
    } else {
        success_count(results.drop_last()) + if results.last() { 1nat } else { 0nat }
    }
}

/// The text of the message that reports a finished import.
pub open spec fn import_summary_text(path: Seq<char>, results: Seq<bool>) -> Seq<char> {
    "Import of "@ + path + " complete. "@ + decimal(success_count(results)) + "/"@ + decimal(
        results.len(),
    ) + " images imported successfully."@
}

/// The message that reports a finished import of the folder `path`, in which
/// `results` says for each image whether it was imported.
pub fn import_summary(path: &str, results: &[bool]) -> (s: String)
    ensures
        s@ == import_summary_text(path@, results@),
{
    let mut ok: usize = 0;
    let mut i: usize = 0;
    while i < results.len()
        invariant
            i <= results@.len(),
            ok <= i,
            ok == success_count(results@.take(i as int)),
        decreases results.len() - i,
    {
        assert(results@.take(i + 1).drop_last() =~= results@.take(i as int));
        if results[i] {
            ok = ok + 1;
        }
        i = i + 1;
    }
    assert(results@.take(i as int) =~= results@);
    proof {
        reveal_strlit("Import of ");
        reveal_strlit(" complete. ");
        reveal_strlit("/");
        reveal_strlit(" images imported successfully.");
    }
    let mut s = String::from_str("Import of ");
    s.append(path);
    s.append(" complete. ");
    let a = format_u64(ok as u64);
    s.append(a.as_str());
    s.append("/");
    let b = format_u64(results.len() as u64);
    s.append(b.as_str());
    s.append(" images imported successfully.");
    s
}

} // verus!
