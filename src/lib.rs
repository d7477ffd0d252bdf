/// Reading the lines of the chat protocol.
pub mod protocol;
/// Who is online: connection ids, nicknames and their handles.
pub mod registry;
/// What a line from a registered connection causes.
pub mod router;
/// The handshake and the steps of a registered connection.
pub mod session;
/// Operations on text that the protocol is built from.
pub mod text;
