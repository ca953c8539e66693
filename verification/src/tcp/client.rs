//! The client side of an upload: what it sends along with a file, where it
//! connects, and how it reads the server's replies.

use vstd::prelude::*;
use vstd::utf8::{valid_utf8, decode_utf8};
use crate::tcp::message::{Message, MessageType};
use crate::text::{decimal, u64_to_decimal};

verus! {

/// The media type `mime_guess` gives for a file extension.
pub uninterp spec fn mime_type_of(extension: Seq<char>) -> Seq<char>;

/// Calls `mime_guess::from_ext(ext).first_or_octet_stream()` and renders the
/// media type. The contract names the result; of the table behind it, it
/// states only what the crate's source shows for an empty extension.
#[verifier::external_body]
fn mime_for_extension(ext: &str) -> (m: String)
    ensures
        m@ == mime_type_of(ext@),
        ext@.len() == 0 ==> m@ == "application/octet-stream"@,
{
    mime_guess::from_ext(ext).first_or_octet_stream().to_string()
}

/// The media type sent with a file: guessed from its extension, when it has one.
pub fn guess_mime(extension: Option<&str>) -> (m: Option<String>)
    ensures
        extension is None ==> m is None,
        extension matches Some(e) ==> (m matches Some(t) && t@ == mime_type_of(e@)),
{
    match extension {
        Some(e) => Some(mime_for_extension(e)),
        None => None,
    }
}

/// The address a client connects to.
pub fn connect_address(ip: &str, port: &str) -> (a: String)
    ensures
        a@ == ip@ + ":"@ + port@,
{
    let mut a = String::from_str(ip);
    a.append(":");
    a.append(port);
    a
}

/// The address the server listens on: every interface, at `port`.
pub fn listen_address(port: u64) -> (a: String)
    ensures
        a@ == "0.0.0.0:"@ + decimal(port as nat),
{
    let mut a = String::from_str("0.0.0.0:");
    let p = u64_to_decimal(port);
    a.append(p.as_str());
    a
}

/// The name of the file that remembers an unfinished upload.
pub fn pending_file_name(uuid: &str) -> (n: String)
    ensures
        n@ == uuid@ + ".tmp"@,
{
    let mut n = String::from_str(uuid);
    n.append(".tmp");
    n
}

/// Why a reply of the server ends an upload.
pub enum ReplyError {
    /// The reply's text is not UTF-8.
    InvalidData(String),
    /// The server refused, or sent an unexpected message.
    Other(String),
}

/// The text of a reply, or the error for a text that is not UTF-8.
fn reply_text(msg: &Message) -> (r: Result<String, ReplyError>)
    ensures
        r matches Ok(s) ==> valid_utf8(msg.data@) && s@ == decode_utf8(msg.data@),
        r matches Err(e) ==> !valid_utf8(msg.data@) && e is InvalidData,
{
    match msg.get_string() {
        Ok(s) => Ok(s),
        Err(e) => Err(ReplyError::InvalidData(e)),
    }
}

fn unexpected_reply(msg: &Message) -> (e: ReplyError)
    ensures
        e matches ReplyError::Other(m) && m@ == "Unvalid message '"@ + decimal(
            msg.message_type.spec_code() as nat,
        ) + "' from server"@,
{
    let mut m = String::from_str("Unvalid message '");
    let code = u64_to_decimal(msg.message_type.code() as u64);
    m.append(code.as_str());
    m.append("' from server");
    ReplyError::Other(m)
}

fn server_error(msg: &Message) -> (r: ReplyError)
    requires
        msg.message_type == MessageType::Error,
    ensures
        valid_utf8(msg.data@) ==> (r matches ReplyError::Other(m) && m@ == "Server error: "@
            + decode_utf8(msg.data@)),
        !valid_utf8(msg.data@) ==> r is InvalidData,
{
    match reply_text(msg) {
        Ok(text) => {
            let mut m = String::from_str("Server error: ");
            m.append(text.as_str());
            ReplyError::Other(m)
        },
        Err(e) => e,
    }
}

/// Reads the server's answer to a new upload: a `Stream` reply carries the
/// identifier the object is stored under; an `Error` reply carries the
/// server's reason; any other reply is unexpected.
pub fn upload_reply(msg: &Message) -> (r: Result<String, ReplyError>)
    ensures
        msg.message_type == MessageType::Stream ==> (valid_utf8(msg.data@) ==> (r matches Ok(s)
            && s@ == decode_utf8(msg.data@))) && (!valid_utf8(msg.data@) ==> (r matches Err(e)
            && e is InvalidData)),
        msg.message_type == MessageType::Error ==> (valid_utf8(msg.data@) ==> (r matches Err(
            ReplyError::Other(m),
        ) && m@ == "Server error: "@ + decode_utf8(msg.data@))) && (!valid_utf8(msg.data@) ==> (r matches Err(e) && e is InvalidData)),
        msg.message_type != MessageType::Stream && msg.message_type != MessageType::Error ==> (r matches Err(
            ReplyError::Other(m),
        ) && m@ == "Unvalid message '"@ + decimal(msg.message_type.spec_code() as nat)
            + "' from server"@),
{
    match msg.message_type {
        MessageType::Stream => reply_text(msg),
        MessageType::Error => Err(server_error(msg)),
        _ => Err(unexpected_reply(msg)),
    }
}

/// Reads the server's answer to a resumed upload. Resuming is not finished
/// on the server side: every reply ends the attempt, with the server's
/// reason for an `Error` reply and as unexpected otherwise.
pub fn resume_reply(msg: &Message) -> (e: ReplyError)
    ensures
        msg.message_type == MessageType::Error && valid_utf8(msg.data@) ==> (e matches ReplyError::Other(
            m,
        ) && m@ == "Server error: "@ + decode_utf8(msg.data@)),
        msg.message_type == MessageType::Error && !valid_utf8(msg.data@) ==> e is InvalidData,
        msg.message_type != MessageType::Error ==> (e matches ReplyError::Other(m) && m@
            == "Unvalid message '"@ + decimal(msg.message_type.spec_code() as nat)
            + "' from server"@),
{
    match msg.message_type {
        MessageType::Error => server_error(msg),
        _ => unexpected_reply(msg),
    }
}

} // verus!
