//! The commands that the scheduler hands to the transport layer, and the
//! requests that it takes from it.

use vstd::prelude::*;

verus! {

/// What a command asks of its receiver.
#[derive(Debug, Clone, Copy, PartialEq, Eq, Hash, Structural)]
pub enum CommandType {
    ShardTask,
    OffloadAccepted,
    StreamInit,
}

/// One shard of offloaded work.
#[derive(Debug, Clone)]
pub struct ShardPayload {
    pub shard_id: String,
    pub shard_index: u32,
    pub shard_total: u32,
    pub data: Vec<u8>,
    pub next_container: String,
    pub buffer_tag: String,
}

/// What a command carries.
#[derive(Debug, Clone)]
pub enum Payload {
    Shard(ShardPayload),
}

/// A command for a node or a client. A mere acknowledgement carries no
/// payload.
#[derive(Debug, Clone)]
pub struct ServerCommand {
    pub kind: CommandType,
    pub task_id: String,
    pub payload: Option<Payload>,
}

/// A client's request to offload a task.
#[derive(Debug, Clone)]
pub struct OffloadRequestPayload {
    pub container_id: String,
    pub task_type: String,
    pub model_variant: String,
}

/// A client's request to start a streaming session. Its content belongs to
/// the transport layer; the scheduler reads none of it.
#[derive(Debug, Clone, Copy)]
pub struct BabelRequestPayload {}

/// A client's request for assistance. Its content belongs to the transport
/// layer; the scheduler reads none of it.
#[derive(Debug, Clone, Copy)]
pub struct AssistRequestPayload {}

/// An administrator's request.
#[derive(Debug, Clone)]
pub struct AdminRequestPayload {
    pub action: String,
    pub target: String,
    pub message: String,
}

/// Whether `c` is a hexadecimal digit in lower case.
pub open spec fn is_lower_hex(c: char) -> bool {
    ('0' <= c && c <= '9') || ('a' <= c && c <= 'f')
}

/// Whether `text` has the shape of a version 4 UUID in its usual form: 36
/// characters, which are hexadecimal digits in lower case but for the hyphens
/// that part them into groups of 8, 4, 4, 4 and 12, with the version digit 4
/// at the head of the third group.
pub open spec fn is_uuid_text(text: Seq<char>) -> bool {
    &&& text.len() == 36
    &&& forall|i: int|
        0 <= i < 36 ==> if i == 8 || i == 13 || i == 18 || i == 23 {
            #[trigger] text[i] == '-'
        } else {
            is_lower_hex(text[i])
        }
    &&& text[14] == '4'
}

/// Whether `cmd` assigns the shard `shard_id`: a `ShardTask` whose task is the
/// shard, which is the only one of its task, with an empty body and the
/// default tags.
pub open spec fn is_shard_task(cmd: ServerCommand, shard_id: Seq<char>) -> bool {
    &&& cmd.kind == CommandType::ShardTask
    &&& cmd.task_id@ == shard_id
    &&& cmd.payload matches Some(Payload::Shard(shard))
    &&& shard.shard_id@ == shard_id
    &&& shard.shard_index == 0
    &&& shard.shard_total == 1
    &&& shard.data@.len() == 0
    &&& shard.next_container@ == "Programming"@
    &&& shard.buffer_tag@ == "default"@
}

/// Whether `cmd` is the acknowledgement `kind` of the task named by `prefix`
/// and the client's identifier.
pub open spec fn is_acknowledgement(
    cmd: ServerCommand,
    kind: CommandType,
    prefix: Seq<char>,
    client_id: Seq<char>,
) -> bool {
    &&& cmd.kind == kind
    &&& cmd.task_id@ == prefix + client_id
    &&& cmd.payload is None
}

/// `uuid::Uuid::new_v4` and the `to_string` of its result: the text of a
/// random UUID, unlike that of any earlier call with overwhelming likelihood,
/// though not with certainty. The call fails where the operating system gives
/// no random bytes.
#[verifier::external_body]
fn fresh_shard_id() -> (id: String)
    ensures
        is_uuid_text(id@),
{
    uuid::Uuid::new_v4().to_string()
}

/// The command that assigns the shard `shard_id`.
pub fn shard_command(shard_id: String) -> (cmd: ServerCommand)
    ensures
        is_shard_task(cmd, shard_id@),
{
    let task_id = shard_id.clone();
    ServerCommand {
        kind: CommandType::ShardTask,
        task_id,
        payload: Some(
            Payload::Shard(
                ShardPayload {
                    shard_id,
                    shard_index: 0,
                    shard_total: 1,
                    data: Vec::new(),
                    next_container: "Programming".to_owned(),
                    buffer_tag: "default".to_owned(),
                },
            ),
        ),
    }
}

/// A command that assigns a shard with a fresh identifier.
pub fn create_shard_command() -> (cmd: ServerCommand)
    ensures
        is_uuid_text(cmd.task_id@),
        is_shard_task(cmd, cmd.task_id@),
{
    shard_command(fresh_shard_id())
}

/// The acknowledgement `kind` of the task named by `prefix` and `client_id`.
pub fn acknowledgement(kind: CommandType, prefix: &str, client_id: &str) -> (cmd: ServerCommand)
    ensures
        is_acknowledgement(cmd, kind, prefix@, client_id@),
{
    let task_id = prefix.to_owned().concat(client_id);
    ServerCommand { kind, task_id, payload: None }
}

} // verus!
