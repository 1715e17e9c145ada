use vstd::prelude::*;
use vstd::string::StringExecFns;

use crate::session::ClientSessionId;

verus! {

/// Who authored a chat message.
#[derive(Debug)]
pub enum ChatMessageSenderType {
    Server,
    Client { id: ClientSessionId, name: String },
}

/// One chat log entry: the wall-clock reading at receipt (as hour:minute
/// text), the sender, and the message body.
#[derive(Debug)]
pub struct ChatMessage {
    pub receive_time: String,
    pub sender_type: ChatMessageSenderType,
    pub msg: String,
}

/// Relies on chrono: converting `SystemTime::now` into a local `DateTime`
/// and formatting it with "%H:%M" yields a five-character hour:minute
/// reading, both fields zero-padded to two digits.
#[verifier::external_body]
fn current_time_hhmm() -> (r: String)
    ensures
        r@.len() == 5,
{
    let datetime: chrono::DateTime<chrono::Local> = std::time::SystemTime::now().into();
    datetime.format("%H:%M").to_string()
}

/// The name a message line shows for its sender.
pub open spec fn spec_sender_name(sender: ChatMessageSenderType) -> Seq<char> {
    match sender {
        ChatMessageSenderType::Server => "SERVER"@,
        ChatMessageSenderType::Client { name, .. } => name@,
    }
}

/// The display line of a message: clock reading, sender in angle brackets,
/// then the body.
pub open spec fn spec_display_line(m: ChatMessage) -> Seq<char> {
    m.receive_time@ + " <"@ + spec_sender_name(m.sender_type) + "> "@ + m.msg@
}

impl ChatMessage {
    /// A server-authored entry, stamped with the current wall clock.
    pub fn new_from_server(msg: String) -> (r: Self)
        ensures
            r.sender_type is Server,
            r.msg@ == msg@,
            r.receive_time@.len() == 5,
    {
        Self { receive_time: current_time_hhmm(), sender_type: ChatMessageSenderType::Server, msg }
    }

    /// A client-authored entry, stamped with the current wall clock.
    pub fn new_from_client(msg: String, id: ClientSessionId, name: String) -> (r: Self)
        ensures
            r.sender_type matches ChatMessageSenderType::Client { id: rid, name: rname } && rid
                == id && rname@ == name@,
            r.msg@ == msg@,
            r.receive_time@.len() == 5,
    {
        Self {
            receive_time: current_time_hhmm(),
            sender_type: ChatMessageSenderType::Client { id, name },
            msg,
        }
    }

    /// Render the message as one log line.
    pub fn display_line(&self) -> (r: String)
        ensures
            r@ == spec_display_line(*self),
    {
        let mut s = String::from_str(self.receive_time.as_str());
        s.append(" <");
        match &self.sender_type {
            ChatMessageSenderType::Server => s.append("SERVER"),
            ChatMessageSenderType::Client { id: _, name } => s.append(name.as_str()),
        }
        s.append("> ");
        s.append(self.msg.as_str());
        proof {
            assert(s@ =~= spec_display_line(*self));
        }
        s
    }
}

} // verus!
